//! Pronouncing words from the gold and silver tables: tag-aware lookups, letter
//! spelling for proper names, and the endings of plurals, past tenses and
//! progressive forms.

use vstd::prelude::*;
use vstd::string::StringSliceAdditionalSpecFns;
use vstd::utf8::{decode_utf8, encode_utf8, valid_utf8};
use crate::lexicon::{
    gold_header_ok, gold_index, gold_readable, silver_header_ok, gold_single, gold_single_value, gold_variants_len,
    gold_variants_offset, gold_pool, gold_value_pool, silver_lookup, silver_readable, tag_value,
    variant_tag, variant_value, BinGoldMap, BinLexiconValue, BinSilverMap, TokenContext,
};
use crate::pattern::{compile_regex, regex_compiles, regex_find, regex_finds, regex_first_match, regex_is_match};
use crate::tagger::{InternalMToken, TokenView};
use crate::lexicon::{alpha_words, is_all_uppercase, split_lowercase_words};
use crate::numbers::{parse_i64, cardinal_words, magnitude, ordinal_words, parsed_i64, signed_words, year_words, NumberToWords};
use crate::phonemes::{
    above_zero, apply_stress, diphthong, holds, holds_char, is_above_zero, is_diphthong, is_us_tau, stress_applied, stressed, us_tau,
    level_of, StressLevel, StressWeight,
};
use crate::text::{
    all_uppercase, alphabetic_char, has_numeric, numeric_char, char_to_uppercase, chars_all_uppercase, chars_eq, chars_eq_str, chars_have_numeric, from_utf8, chars_of,
    ends_with, ends_with_str, extend_chars, is_alphabetic, is_numeric, joined, lowercase_str, starts_with, starts_with_str, string_from_chars, string_from_range, to_lowercase,
    uppercase_of,
};

verus! {

/// The UTF-8 bytes of a word, as the tables key it.
pub open spec fn key_of(w: Seq<char>) -> Seq<u8> {
    encode_utf8(w)
}

/// The text of optional table bytes.
pub open spec fn opt_text(b: Option<Seq<u8>>) -> Option<Seq<char>> {
    match b {
        Some(v) => Some(decode_utf8(v)),
        None => None,
    }
}

/// The variant tags of gold entry `i`.
pub open spec fn gold_tags(g: Seq<u8>, i: int) -> Seq<Seq<u8>> {
    Seq::new(
        gold_variants_len(g, i) as nat,
        |j: int| variant_tag(gold_value_pool(g), gold_pool(g), gold_variants_offset(g, i), j),
    )
}

/// The variant pronunciations of gold entry `i`.
pub open spec fn gold_values(g: Seq<u8>, i: int) -> Seq<Option<Seq<u8>>> {
    Seq::new(
        gold_variants_len(g, i) as nat,
        |j: int| variant_value(gold_value_pool(g), gold_pool(g), gold_variants_offset(g, i), j),
    )
}

/// The pronunciation recorded under tag `t` by the variants of gold entry `i`.
pub open spec fn tagged(g: Seq<u8>, i: int, t: Seq<char>) -> Option<Seq<u8>> {
    match tag_value(gold_tags(g, i), gold_values(g, i), key_of(t)) {
        Some(Some(v)) => Some(v),
        _ => None,
    }
}

/// Some variant of gold entry `i` is tagged `t`.
pub open spec fn has_tag(g: Seq<u8>, i: int, t: Seq<char>) -> bool {
    tag_value(gold_tags(g, i), gold_values(g, i), key_of(t)) is Some
}

/// The default pronunciation gold holds for `w`: its single one, or the one of its
/// `DEFAULT` variant.
pub open spec fn gold_default(g: Seq<u8>, w: Seq<char>) -> Option<Seq<u8>> {
    match gold_index(g, key_of(w)) {
        None => None,
        Some(i) => if gold_single(g, i) {
            Some(gold_single_value(g, i))
        } else {
            tagged(g, i, "DEFAULT"@)
        },
    }
}

/// Gold has an entry for `w`.
pub open spec fn in_gold(g: Seq<u8>, w: Seq<char>) -> bool {
    gold_index(g, key_of(w)) is Some
}

/// The coarse tag a fine part-of-speech tag belongs to.
pub open spec fn parent_of(t: Seq<char>) -> Seq<char> {
    if starts_with(t, "VB"@) {
        "VERB"@
    } else if starts_with(t, "NN"@) {
        "NOUN"@
    } else if starts_with(t, "ADV"@) || starts_with(t, "RB"@) {
        "ADV"@
    } else if starts_with(t, "ADJ"@) || starts_with(t, "JJ"@) {
        "ADJ"@
    } else {
        t
    }
}

/// The weight of phonemes: two per diphthong or affricate, one per other char.
pub open spec fn weight(s: Seq<char>) -> int
    decreases s.len(),
{
    if s.len() == 0 {
        0
    } else {
        weight(s.drop_last()) + if diphthong(s.last()) {
            2int
        } else {
            1int
        }
    }
}

/// The vowel of the syllabic endings: `ɪ` in British English, `ᵻ` in American.
pub open spec fn mid_vowel(british: bool) -> char {
    if british {
        '\u{26a}'
    } else {
        '\u{1d7b}'
    }
}

/// A plural's phonemes: `s` after a voiceless stop or fricative, a syllabic `z`
/// after a sibilant, `z` otherwise.
pub open spec fn plural_of(stem: Seq<char>, british: bool) -> Option<Seq<char>> {
    if stem.len() == 0 {
        None
    } else {
        let l = stem.last();
        if l == 'p' || l == 't' || l == 'k' || l == 'f' || l == '\u{3b8}' {
            Some(stem + seq!['s'])
        } else if l == 's' || l == 'z' || l == '\u{283}' || l == '\u{292}' || l == '\u{2a7}' || l
            == '\u{2a4}' {
            Some(stem + seq![mid_vowel(british), 'z'])
        } else {
            Some(stem + seq!['z'])
        }
    }
}

/// A past tense's phonemes: `t` after a voiceless sound, a syllabic `d` after `d`
/// or `t` (flapped in American English after a vowel-like sound), `d` otherwise.
pub open spec fn past_of(stem: Seq<char>, british: bool) -> Option<Seq<char>> {
    if stem.len() == 0 {
        None
    } else {
        let l = stem.last();
        if l == 'p' || l == 'k' || l == 'f' || l == '\u{3b8}' || l == '\u{283}' || l == 's' || l
            == '\u{2a7}' {
            Some(stem + seq!['t'])
        } else if l == 'd' {
            Some(stem + seq![mid_vowel(british), 'd'])
        } else if l != 't' {
            Some(stem + seq!['d'])
        } else if british || stem.len() < 2 {
            Some(stem + seq!['\u{26a}', 'd'])
        } else if us_tau(stem[stem.len() - 2]) {
            Some(stem.drop_last() + seq!['\u{27e}', '\u{1d7b}', 'd'])
        } else {
            Some(stem + seq!['\u{1d7b}', 'd'])
        }
    }
}

/// A progressive form's phonemes: `ɪŋ` added (after a flapped `t` in American
/// English); none for a British stem ending in `ə` or `ː`.
pub open spec fn progressive_of(stem: Seq<char>, british: bool) -> Option<Seq<char>> {
    if stem.len() == 0 {
        None
    } else {
        let l = stem.last();
        if british && (l == '\u{259}' || l == '\u{2d0}') {
            None
        } else if !british && stem.len() > 1 && l == 't' && us_tau(stem[stem.len() - 2]) {
            Some(stem.drop_last() + seq!['\u{27e}', '\u{26a}', '\u{14b}'])
        } else {
            Some(stem + seq!['\u{26a}', '\u{14b}'])
        }
    }
}

/// `s` with its first `from` replaced by `to`.
pub open spec fn first_replaced(s: Seq<char>, from: char, to: char) -> Seq<char>
    decreases s.len(),
{
    if s.len() == 0 {
        s
    } else if s[0] == from {
        seq![to] + s.drop_first()
    } else {
        seq![s[0]] + first_replaced(s.drop_first(), from, to)
    }
}

/// The pronunciations of the letters of `w`: each alphabetic char's uppercase form
/// looked up in gold, in order.
pub open spec fn letter_pieces(g: Seq<u8>, w: Seq<char>) -> Seq<char>
    decreases w.len(),
{
    if w.len() == 0 {
        Seq::empty()
    } else {
        letter_pieces(g, w.drop_last()) + if alphabetic_char(w.last()) {
            match gold_default(g, uppercase_of(w.last())) {
                Some(v) => decode_utf8(v),
                None => Seq::<char>::empty(),
            }
        } else {
            Seq::<char>::empty()
        }
    }
}

/// A name spelled letter by letter: the letters' pronunciations with secondary
/// stress, its first secondary mark raised to primary; rated 3.
pub open spec fn spelled_out(g: Seq<u8>, w: Seq<char>) -> (Option<Seq<char>>, Option<i32>) {
    let ps = letter_pieces(g, w);
    if ps.len() == 0 {
        (None, None)
    } else {
        (Some(first_replaced(stressed(ps, StressLevel::Zero), '\u{2cc}', '\u{2c8}')), Some(3i32))
    }
}

/// A char that may appear in a word known by its shape alone.
pub open spec fn ordinal_char(c: char) -> bool {
    c == '\'' || ('a' <= c && c <= 'z') || ('A' <= c && c <= 'Z')
}

/// The word a symbol is read as.
pub open spec fn symbol_word(w: Seq<char>) -> Option<Seq<char>> {
    if w == "%"@ {
        Some("percent"@)
    } else if w == "&"@ {
        Some("and"@)
    } else if w == "+"@ {
        Some("plus"@)
    } else if w == "@"@ {
        Some("at"@)
    } else {
        None
    }
}

/// The word a symbol is read as where it joins parts of an address.
pub open spec fn add_symbol_word(w: Seq<char>) -> Option<Seq<char>> {
    if w == "."@ {
        Some("dot"@)
    } else if w == "/"@ {
        Some("slash"@)
    } else {
        None
    }
}

/// `w` after its first char (empty for the empty word).
pub open spec fn after_first(w: Seq<char>) -> Seq<char> {
    if w.len() == 0 {
        w
    } else {
        w.drop_first()
    }
}

/// No char of `w` is an ASCII lowercase letter.
pub open spec fn no_ascii_lowercase(w: Seq<char>) -> bool {
    forall|k: int| 0 <= k < w.len() ==> !('a' <= #[trigger] w[k] && w[k] <= 'z')
}

/// A word counts as known: it is in gold, a symbol or in silver; or it is made of
/// ASCII letters and apostrophes and is one char long, an all-caps form of a gold
/// word, or capitalised all through after its first char.
pub open spec fn known(g: Seq<u8>, s: Seq<u8>, w: Seq<char>) -> bool {
    ||| in_gold(g, w)
    ||| symbol_word(w) is Some
    ||| silver_lookup(s, key_of(w)) is Some
    ||| {
        &&& forall|k: int| 0 <= k < w.len() ==> ordinal_char(#[trigger] w[k])
        &&& {
            ||| w.len() == 1
            ||| all_uppercase(w) && in_gold(g, lowercase_str(w))
            ||| no_ascii_lowercase(after_first(w))
        }
    }
}

/// The tag under which a gold entry with variants is read: `None` when nothing
/// follows the word and the entry has a `None` variant, else the given tag, or its
/// parent when the entry has no variant for it.
pub open spec fn chosen_tag(g: Seq<u8>, i: int, tag: Option<Seq<char>>, ctx: Option<TokenContext>) -> Option<Seq<char>> {
    match ctx {
        None => tag,
        Some(c) => if c.future_vowel is None && has_tag(g, i, "None"@) {
            Some("None"@)
        } else {
            match tag {
                Some(t) => if has_tag(g, i, t) {
                    Some(t)
                } else {
                    Some(parent_of(t))
                },
                None => None,
            }
        },
    }
}

/// The word a lookup actually reads: the lowercase form of an all-caps word that
/// gold does not hold as it is.
pub open spec fn lookup_word(g: Seq<u8>, w: Seq<char>) -> Seq<char> {
    if all_uppercase(w) && !in_gold(g, w) {
        lowercase_str(w)
    } else {
        w
    }
}

/// Whether a lookup guesses `w` is a proper name: all caps, not in gold as it is,
/// tagged `NNP`.
pub open spec fn proper_guess(g: Seq<u8>, w: Seq<char>, tag: Option<Seq<char>>) -> bool {
    all_uppercase(w) && !in_gold(g, w) && tag == Some("NNP"@)
}

/// The pronunciation gold gives the lookup word.
pub open spec fn gold_reading(g: Seq<u8>, lw: Seq<char>, tag: Option<Seq<char>>, ctx: Option<TokenContext>) -> Option<Seq<u8>> {
    match gold_index(g, key_of(lw)) {
        None => None,
        Some(i) => if gold_single(g, i) {
            Some(gold_single_value(g, i))
        } else {
            let t = match chosen_tag(g, i, tag, ctx) {
                Some(t) => t,
                None => "DEFAULT"@,
            };
            match tagged(g, i, t) {
                Some(v) => Some(v),
                None => tagged(g, i, "DEFAULT"@),
            }
        },
    }
}

/// What a lookup reads from the tables, with its rating: gold (rated 4), else
/// silver (rated 3) unless the word is guessed to be a name.
pub open spec fn table_reading(g: Seq<u8>, s: Seq<u8>, w: Seq<char>, tag: Option<Seq<char>>, ctx: Option<TokenContext>) -> (Option<Seq<u8>>, i32) {
    let lw = lookup_word(g, w);
    let gr = gold_reading(g, lw, tag, ctx);
    if gr is Some {
        (gr, 4i32)
    } else if proper_guess(g, w, tag) {
        (None, 4i32)
    } else {
        let sr = silver_lookup(s, key_of(lw));
        (sr, if sr is Some {
            3i32
        } else {
            4i32
        })
    }
}

/// The pronunciation and rating a lookup gives: the letters spelled out when the
/// tables have nothing (or, for a guessed name, nothing with primary stress) and
/// spelling gives something; else the table reading with `stress` applied.
pub open spec fn looked_up(g: Seq<u8>, s: Seq<u8>, w: Seq<char>, tag: Option<Seq<char>>, stress: Option<StressLevel>, ctx: Option<TokenContext>) -> (Option<Seq<char>>, Option<i32>) {
    let lw = lookup_word(g, w);
    let (ph, rating) = table_reading(g, s, w, tag, ctx);
    let needs_spelling = ph is None || (proper_guess(g, w, tag) && !holds(decode_utf8(ph->Some_0), '\u{2c8}'));
    if needs_spelling && spelled_out(g, lw).0 is Some {
        spelled_out(g, lw)
    } else {
        (stress_applied(opt_text(ph), stress), Some(rating))
    }
}

/// The regular expression of the abbreviation `vs` (with or without a period),
/// in any case.
pub const VERSUS_PATTERN: &'static str = "(?i)^vs\\.?$";

/// The regular expression of progressive forms that double their last consonant
/// or end in `cking`.
pub const DOUBLED_ING_PATTERN: &'static str = "(?i)([bcdgklmnprstvxz])\\1ing$|cking$";

/// The regular expression compiles and matches somewhere in `text`.
pub open spec fn pattern_found(pattern: Seq<char>, text: Seq<char>) -> bool {
    regex_compiles(pattern) && regex_finds(pattern, text)
}

/// The tag is given and starts with `p`.
pub open spec fn tag_starts(tag: Option<Seq<char>>, p: Seq<char>) -> bool {
    tag matches Some(t) && starts_with(t, p)
}

/// One of the three chars from `k` is a period.
pub open spec fn dot_within(w: Seq<char>, k: int) -> bool {
    w[k] == '.' || w[k + 1] == '.' || w[k + 2] == '.'
}

/// Initials with periods: a period between two other chars, letters elsewhere,
/// and no run of three chars without a period.
pub open spec fn dotted_initials(w: Seq<char>) -> bool {
    &&& exists|i: int, j: int, k: int|
        #![trigger w[i], w[j], w[k]]
        0 <= j < i < k < w.len() && w[i] == '.' && w[j] != '.' && w[k] != '.'
    &&& forall|k: int| 0 <= k < w.len() && w[k] != '.' ==> alphabetic_char(#[trigger] w[k])
    &&& forall|k: int| 0 <= k < w.len() - 2 ==> #[trigger] dot_within(w, k)
}

/// Gold's reading of `used`: its `VBD` variant before `to` after a past or
/// adjective tag, else its `DEFAULT` variant.
pub open spec fn used_reading(g: Seq<u8>, tag: Option<Seq<char>>, ctx: TokenContext) -> (Option<Seq<char>>, Option<i32>) {
    match gold_index(g, key_of("used"@)) {
        Some(i) => if gold_single(g, i) {
            (None, None)
        } else if (tag == Some("VBD"@) || tag == Some("JJ"@) || tag == Some("VB"@)) && ctx.future_to
            && tagged(g, i, "VBD"@) is Some {
            (opt_text(tagged(g, i, "VBD"@)), Some(4i32))
        } else if tagged(g, i, "DEFAULT"@) is Some {
            (opt_text(tagged(g, i, "DEFAULT"@)), Some(4i32))
        } else {
            (None, None)
        },
        None => (None, None),
    }
}

/// Words read by rule rather than by table: symbols, initials, articles, `am`,
/// `I`, `by`, `to`, `in`, `the`, `vs` and `used`, each rated 4 unless looked up.
pub open spec fn special_case(g: Seq<u8>, s: Seq<u8>, w: Seq<char>, tag: Option<Seq<char>>, stress: Option<StressLevel>, ctx: TokenContext) -> (Option<Seq<char>>, Option<i32>) {
    let fv = ctx.future_vowel;
    if tag == Some("ADD"@) && add_symbol_word(w) is Some {
        looked_up(g, s, add_symbol_word(w)->Some_0, None, Some(StressLevel::MinusHalf), Some(ctx))
    } else if symbol_word(w) is Some {
        looked_up(g, s, symbol_word(w)->Some_0, None, None, Some(ctx))
    } else if dotted_initials(w) {
        spelled_out(g, w)
    } else if w == "a"@ || w == "A"@ {
        (Some(if tag == Some("DT"@) { "\u{250}"@ } else { "\u{2c8}A"@ }), Some(4i32))
    } else if w == "am"@ || w == "Am"@ || w == "AM"@ {
        if tag_starts(tag, "NN"@) {
            spelled_out(g, w)
        } else if fv is None || w != "am"@ || (stress matches Some(st) && above_zero(st)) {
            (opt_text(gold_default(g, "am"@)), Some(4i32))
        } else {
            (Some("\u{250}m"@), Some(4i32))
        }
    } else if w == "an"@ || w == "An"@ || w == "AN"@ {
        if w == "AN"@ && tag_starts(tag, "NN"@) {
            spelled_out(g, w)
        } else {
            (Some("\u{250}n"@), Some(4i32))
        }
    } else if w == "I"@ && tag == Some("PRP"@) {
        (Some("\u{2cc}I"@), Some(4i32))
    } else if (w == "by"@ || w == "By"@ || w == "BY"@) && (tag matches Some(t) && parent_of(t) == "ADV"@) {
        (Some("b\u{2c8}I"@), Some(4i32))
    } else if w == "to"@ || w == "To"@ || (w == "TO"@ && (tag == Some("TO"@) || tag == Some("IN"@))) {
        (Some(match fv {
            None => match gold_default(g, "to"@) {
                Some(v) => decode_utf8(v),
                None => "tu"@,
            },
            Some(false) => "t\u{259}"@,
            Some(true) => "t\u{28a}"@,
        }), Some(4i32))
    } else if w == "in"@ || w == "In"@ || (w == "IN"@ && tag != Some("NNP"@)) {
        (Some(if fv is None || tag != Some("IN"@) { "\u{2c8}\u{26a}n"@ } else { "\u{26a}n"@ }), Some(4i32))
    } else if w == "the"@ || w == "The"@ || (w == "THE"@ && tag == Some("DT"@)) {
        (Some(if fv == Some(true) { "\u{f0}i"@ } else { "\u{f0}\u{259}"@ }), Some(4i32))
    } else if tag == Some("IN"@) && pattern_found(VERSUS_PATTERN@, w) {
        looked_up(g, s, "versus"@, None, None, Some(ctx))
    } else if w == "used"@ || w == "Used"@ || w == "USED"@ {
        used_reading(g, tag, ctx)
    } else {
        (None, None)
    }
}

/// The stem of a plural the tables know: less `s`, less `'s` or `es`, or `ies`
/// turned into `y`.
pub open spec fn s_stem(g: Seq<u8>, s: Seq<u8>, w: Seq<char>) -> Option<Seq<char>> {
    let n = w.len() as int;
    if n < 3 || !ends_with(w, "s"@) {
        None
    } else if !ends_with(w, "ss"@) && known(g, s, w.take(n - 1)) {
        Some(w.take(n - 1))
    } else if (ends_with(w, "'s"@) || (n > 4 && ends_with(w, "es"@) && !ends_with(w, "ies"@)))
        && known(g, s, w.take(n - 2)) {
        Some(w.take(n - 2))
    } else if n > 4 && ends_with(w, "ies"@) && known(g, s, w.take(n - 3) + "y"@) {
        Some(w.take(n - 3) + "y"@)
    } else {
        None
    }
}

/// The stem of a past tense the tables know: less `d`, or less `ed`.
pub open spec fn ed_stem(g: Seq<u8>, s: Seq<u8>, w: Seq<char>) -> Option<Seq<char>> {
    let n = w.len() as int;
    if n < 4 || !ends_with(w, "d"@) {
        None
    } else if !ends_with(w, "dd"@) && known(g, s, w.take(n - 1)) {
        Some(w.take(n - 1))
    } else if n > 4 && ends_with(w, "ed"@) && !ends_with(w, "eed"@) && known(g, s, w.take(n - 2)) {
        Some(w.take(n - 2))
    } else {
        None
    }
}

/// The stem of a progressive form the tables know: less `ing`, with `e` put
/// back, or with a doubled consonant undone.
pub open spec fn ing_stem(g: Seq<u8>, s: Seq<u8>, w: Seq<char>) -> Option<Seq<char>> {
    let n = w.len() as int;
    if n < 5 || !ends_with(w, "ing"@) {
        None
    } else if n > 5 && known(g, s, w.take(n - 3)) {
        Some(w.take(n - 3))
    } else if known(g, s, w.take(n - 3) + "e"@) {
        Some(w.take(n - 3) + "e"@)
    } else if n > 5 && pattern_found(DOUBLED_ING_PATTERN@, w) && known(g, s, w.take(n - 4)) {
        Some(w.take(n - 4))
    } else {
        None
    }
}

/// An inflected form read from its stem: the stem looked up and the ending added.
pub open spec fn inflected(ending: Option<Seq<char>>, stem_reading: (Option<Seq<char>>, Option<i32>)) -> (Option<Seq<char>>, Option<i32>) {
    (ending, stem_reading.1)
}

/// A plural read from its stem.
pub open spec fn plural_reading(g: Seq<u8>, s: Seq<u8>, british: bool, w: Seq<char>, tag: Option<Seq<char>>, stress: Option<StressLevel>, ctx: Option<TokenContext>) -> (Option<Seq<char>>, Option<i32>) {
    match s_stem(g, s, w) {
        None => (None, None),
        Some(st) => {
            let r = looked_up(g, s, st, tag, stress, ctx);
            (match r.0 {
                Some(p) => plural_of(p, british),
                None => None,
            }, r.1)
        },
    }
}

/// A past tense read from its stem.
pub open spec fn past_reading(g: Seq<u8>, s: Seq<u8>, british: bool, w: Seq<char>, tag: Option<Seq<char>>, stress: Option<StressLevel>, ctx: Option<TokenContext>) -> (Option<Seq<char>>, Option<i32>) {
    match ed_stem(g, s, w) {
        None => (None, None),
        Some(st) => {
            let r = looked_up(g, s, st, tag, stress, ctx);
            (match r.0 {
                Some(p) => past_of(p, british),
                None => None,
            }, r.1)
        },
    }
}

/// A progressive form read from its stem.
pub open spec fn progressive_reading(g: Seq<u8>, s: Seq<u8>, british: bool, w: Seq<char>, tag: Option<Seq<char>>, stress: Option<StressLevel>, ctx: Option<TokenContext>) -> (Option<Seq<char>>, Option<i32>) {
    match ing_stem(g, s, w) {
        None => (None, None),
        Some(st) => {
            let r = looked_up(g, s, st, tag, stress, ctx);
            (match r.0 {
                Some(p) => progressive_of(p, british),
                None => None,
            }, r.1)
        },
    }
}

/// The stress a progressive form is read with: the given one, else a half.
pub open spec fn ing_stress(stress: Option<StressLevel>) -> Option<StressLevel> {
    match stress {
        Some(st) => Some(st),
        None => Some(StressLevel::Half),
    }
}

/// A capitalised word that the tables do not hold as it is but hold, or can
/// inflect, in lowercase, is read in lowercase.
pub open spec fn reads_lowercase(g: Seq<u8>, s: Seq<u8>, british: bool, w: Seq<char>, tag: Option<Seq<char>>, stress: Option<StressLevel>, ctx: TokenContext) -> bool {
    let l = lowercase_str(w);
    &&& w.len() > 1
    &&& exists|k: int| 0 <= k < w.len() && #[trigger] w[k] != '\''
    &&& forall|k: int| 0 <= k < w.len() && w[k] != '\'' ==> alphabetic_char(#[trigger] w[k])
    &&& w != l
    &&& (tag != Some("NNP"@) || w.len() > 7)
    &&& !in_gold(g, w)
    &&& silver_lookup(s, key_of(w)) is None
    &&& (all_uppercase(w) || lowercase_str(after_first(w)) == after_first(w))
    &&& {
        ||| in_gold(g, l)
        ||| silver_lookup(s, key_of(l)) is Some
        ||| plural_reading(g, s, british, l, tag, stress, Some(ctx)).0 is Some
        ||| past_reading(g, s, british, l, tag, stress, Some(ctx)).0 is Some
        ||| progressive_reading(g, s, british, l, tag, ing_stress(stress), Some(ctx)).0 is Some
    }
}

/// A word's pronunciation and rating: by rule, else from the tables (in
/// lowercase where that is how they know it, or less a trailing apostrophe), else
/// as an inflection of a known stem.
pub open spec fn word_reading(g: Seq<u8>, s: Seq<u8>, british: bool, w: Seq<char>, tag: Option<Seq<char>>, stress: Option<StressLevel>, ctx: TokenContext) -> (Option<Seq<char>>, Option<i32>) {
    let sc = special_case(g, s, w, tag, stress, ctx);
    let c = Some(ctx);
    if sc.0 is Some {
        sc
    } else {
        let lw = if reads_lowercase(g, s, british, w, tag, stress, ctx) {
            lowercase_str(w)
        } else {
            w
        };
        let n = lw.len() as int;
        if known(g, s, lw) {
            looked_up(g, s, lw, tag, stress, c)
        } else if ends_with(lw, "s'"@) && known(g, s, lw.take(n - 2) + "'s"@) {
            looked_up(g, s, lw.take(n - 2) + "'s"@, tag, stress, c)
        } else if ends_with(lw, "'"@) && known(g, s, lw.take(n - 1)) {
            looked_up(g, s, lw.take(n - 1), tag, stress, c)
        } else if plural_reading(g, s, british, lw, tag, stress, c).0 is Some {
            plural_reading(g, s, british, lw, tag, stress, c)
        } else if past_reading(g, s, british, lw, tag, stress, c).0 is Some {
            past_reading(g, s, british, lw, tag, stress, c)
        } else if progressive_reading(g, s, british, lw, tag, ing_stress(stress), c).0 is Some {
            progressive_reading(g, s, british, lw, tag, ing_stress(stress), c)
        } else {
            (None, None)
        }
    }
}

/// The regular expression of the letters that may end a number (`st`, `'s`, `ing`).
pub const NUMBER_SUFFIX_PATTERN: &'static str = "[a-zA-Z']+$";

/// Phonemes and their ratings, collected while a number is read.
pub type Readings = (Seq<Seq<char>>, Seq<i32>);

/// No readings yet.
pub open spec fn no_readings() -> Readings {
    (Seq::empty(), Seq::empty())
}

/// `acc` with a lookup's reading added when it has both phonemes and a rating.
pub open spec fn with_reading(acc: Readings, r: (Option<Seq<char>>, Option<i32>)) -> Readings {
    match r {
        (Some(p), Some(k)) => (acc.0.push(p), acc.1.push(k)),
        _ => acc,
    }
}

/// `t` or, failing it, `d`.
pub open spec fn or_else(t: Option<Seq<char>>, d: Seq<char>) -> Seq<char> {
    match t {
        Some(x) => x,
        None => d,
    }
}

/// Cardinal words for decimal text that parses as an `i64`.
pub open spec fn cardinal_text(t: Seq<char>) -> Option<Seq<char>> {
    match parsed_i64(t) {
        Some(v) => Some(signed_words(v, cardinal_words(magnitude(v)))),
        None => None,
    }
}

/// Ordinal words for decimal text that parses as an `i64`.
pub open spec fn ordinal_text(t: Seq<char>) -> Option<Seq<char>> {
    match parsed_i64(t) {
        Some(v) => Some(signed_words(v, ordinal_words(magnitude(v)))),
        None => None,
    }
}

/// Year words for decimal text that parses as an `i64`.
pub open spec fn year_text(t: Seq<char>) -> Option<Seq<char>> {
    match parsed_i64(t) {
        Some(v) => Some(signed_words(v, year_words(magnitude(v)))),
        None => None,
    }
}

/// One word of a spoken number read onto `acc`: `and` only under flag `&` (or,
/// under flag `n`, joined onto the previous reading as `ən`), a leading `one` as
/// `ə` under flag `a`, `point` without stress, any other word looked up.
pub open spec fn word_step(g: Seq<u8>, s: Seq<u8>, acc: Readings, words: Seq<Seq<char>>, index: int, first: bool, flags: Seq<char>) -> Readings {
    let w = words[index];
    if w != "and"@ || holds(flags, '&') {
        if first && index == 0 && words.len() > 1 && w == "one"@ && holds(flags, 'a') {
            (acc.0.push("\u{259}"@), acc.1.push(4i32))
        } else {
            with_reading(acc, looked_up(g, s, w, None, if w == "point"@ {
                Some(StressLevel::BelowMinusOne)
            } else {
                None
            }, None))
        }
    } else if holds(flags, 'n') && acc.0.len() > 0 {
        (acc.0.drop_last().push(acc.0.last() + "\u{259}n"@), acc.1)
    } else {
        acc
    }
}

/// Words `index..` read onto `acc`.
pub open spec fn words_read(g: Seq<u8>, s: Seq<u8>, acc: Readings, words: Seq<Seq<char>>, index: int, first: bool, flags: Seq<char>) -> Readings
    decreases words.len() - index,
{
    if index < 0 || index >= words.len() {
        acc
    } else {
        words_read(g, s, word_step(g, s, acc, words, index, first, flags), words, index + 1, first, flags)
    }
}

/// The words of `w` read onto `acc`; unless `escape`, decimal text is first
/// spelled as cardinal words.
pub open spec fn read_words(g: Seq<u8>, s: Seq<u8>, acc: Readings, w: Seq<char>, first: bool, escape: bool, flags: Seq<char>) -> Readings {
    let source = if escape {
        w
    } else {
        or_else(cardinal_text(w), w)
    };
    words_read(g, s, acc, alpha_words(source), 0, first, flags)
}

/// Each char of `t` read onto `acc` on its own.
pub open spec fn chars_read(g: Seq<u8>, s: Seq<u8>, acc: Readings, t: Seq<char>, flags: Seq<char>) -> Readings
    decreases t.len(),
{
    if t.len() == 0 {
        acc
    } else {
        read_words(g, s, chars_read(g, s, acc, t.drop_last(), flags), seq![t.last()], false, false, flags)
    }
}

/// `t` without the char `c`.
pub open spec fn dropped(t: Seq<char>, c: char) -> Seq<char>
    decreases t.len(),
{
    if t.len() == 0 {
        t
    } else if t.last() == c {
        dropped(t.drop_last(), c)
    } else {
        dropped(t.drop_last(), c).push(t.last())
    }
}

/// How many chars of `t` are `c`.
pub open spec fn count_of(t: Seq<char>, c: char) -> int
    decreases t.len(),
{
    if t.len() == 0 {
        0
    } else {
        count_of(t.drop_last(), c) + if t.last() == c {
            1int
        } else {
            0int
        }
    }
}

/// The pieces of `t` from `i` between the separators `c`, the current piece being
/// `cur` (`str::split`: there is always one more piece than separators).
pub open spec fn split_from(t: Seq<char>, c: char, i: int, cur: Seq<char>) -> Seq<Seq<char>>
    decreases t.len() - i,
{
    if i < 0 || i >= t.len() {
        seq![cur]
    } else if t[i] == c {
        seq![cur] + split_from(t, c, i + 1, Seq::empty())
    } else {
        split_from(t, c, i + 1, cur.push(t[i]))
    }
}

/// The pieces of `t` between the separators `c`.
pub open spec fn split_on(t: Seq<char>, c: char) -> Seq<Seq<char>> {
    split_from(t, c, 0, Seq::empty())
}

/// The pieces joined with single spaces.
pub open spec fn spaced(ps: Seq<Seq<char>>) -> Seq<char>
    decreases ps.len(),
{
    if ps.len() == 0 {
        Seq::empty()
    } else if ps.len() == 1 {
        ps[0]
    } else {
        spaced(ps.drop_last()) + seq![' '] + ps.last()
    }
}

/// The smallest of the ratings.
pub open spec fn least(rs: Seq<i32>) -> i32
    decreases rs.len(),
{
    if rs.len() <= 1 {
        rs[0]
    } else if rs.last() < least(rs.drop_last()) {
        rs.last()
    } else {
        least(rs.drop_last())
    }
}

/// Each digit of `t` spelled as a word (other chars kept), the words separated by
/// spaces.
pub open spec fn digit_words(t: Seq<char>) -> Seq<char> {
    spaced(Seq::new(t.len(), |k: int| or_else(cardinal_text(seq![t[k]]), seq![t[k]])))
}

/// Nonempty, and every char numeric.
pub open spec fn digit_string(t: Seq<char>) -> bool {
    t.len() > 0 && forall|k: int| 0 <= k < t.len() ==> numeric_char(#[trigger] t[k])
}

/// An ordinal ending.
pub open spec fn ordinal_suffix(l: Seq<char>) -> bool {
    l == "st"@ || l == "nd"@ || l == "rd"@ || l == "th"@
}

/// The unit and hundredth of a currency symbol.
pub open spec fn currency_units(c: Seq<char>) -> Option<(Seq<char>, Seq<char>)> {
    if c == "$"@ {
        Some(("dollar"@, "cent"@))
    } else if c == "\u{a3}"@ {
        Some(("pound"@, "pence"@))
    } else if c == "\u{20ac}"@ {
        Some(("euro"@, "cent"@))
    } else {
        None
    }
}

/// The chars of `w` after its first period.
pub open spec fn after_dot(w: Seq<char>) -> Seq<char>
    decreases w.len(),
{
    if w.len() == 0 {
        w
    } else if w[0] == '.' {
        w.drop_first()
    } else {
        after_dot(w.drop_first())
    }
}

/// A currency amount: no period, or one period followed by fewer than three
/// chars or only zeros.
pub open spec fn currency_amount(w: Seq<char>) -> bool {
    if !holds(w, '.') {
        true
    } else if count_of(w, '.') > 1 {
        false
    } else {
        let cents = after_dot(w);
        cents.len() < 3 || forall|k: int| 0 <= k < cents.len() ==> #[trigger] cents[k] == '0'
    }
}

/// The whole and hundredth amounts of a currency amount (zero where they do not
/// parse).
pub open spec fn amounts(w: Seq<char>) -> (i64, i64) {
    let parts = split_on(dropped(w, ','), '.');
    let v0 = match parsed_i64(parts[0]) {
        Some(v) => v,
        None => 0,
    };
    let v1 = if parts.len() > 1 {
        match parsed_i64(parts[1]) {
            Some(v) => v,
            None => 0,
        }
    } else {
        0
    };
    (v0, v1)
}

/// The amounts spoken for a sum, each with its unit: both when both are nonzero,
/// the nonzero one when only one is, both zeros when neither is.
pub open spec fn quantities(v0: i64, v1: i64, unit: Seq<char>, cents: Seq<char>) -> Seq<(i64, Seq<char>)> {
    if v0 != 0 && v1 != 0 {
        seq![(v0, unit), (v1, cents)]
    } else if v0 != 0 {
        seq![(v0, unit)]
    } else if v1 != 0 {
        seq![(v1, cents)]
    } else {
        seq![(v0, unit), (v1, cents)]
    }
}

/// The spoken form of an `i64`.
pub open spec fn cardinal_of(v: i64) -> Seq<char> {
    signed_words(v, cardinal_words(magnitude(v)))
}

/// Quantity `i` read onto `acc`: `and` before all but the first, the amount,
/// then the unit (in the plural unless the amount is one, or the unit is pence).
pub open spec fn money_step(g: Seq<u8>, s: Seq<u8>, british: bool, acc: Readings, v: i64, unit: Seq<char>, i: int, flags: Seq<char>) -> Readings {
    let a1 = if i > 0 {
        with_reading(acc, looked_up(g, s, "and"@, None, None, None))
    } else {
        acc
    };
    let a2 = read_words(g, s, a1, cardinal_of(v), i == 0, true, flags);
    if v != 1 && v != -1 && unit != "pence"@ {
        with_reading(a2, plural_reading(g, s, british, unit + "s"@, None, None, None))
    } else {
        with_reading(a2, looked_up(g, s, unit, None, None, None))
    }
}

/// Quantities `i..` read onto `acc`.
pub open spec fn money_read(g: Seq<u8>, s: Seq<u8>, british: bool, acc: Readings, qs: Seq<(i64, Seq<char>)>, i: int, flags: Seq<char>) -> Readings
    decreases qs.len() - i,
{
    if i < 0 || i >= qs.len() {
        acc
    } else {
        money_read(g, s, british, money_step(g, s, british, acc, qs[i].0, qs[i].1, i, flags), qs, i + 1, flags)
    }
}

/// A chunk between periods is read char by char: it starts with `0`, or is not
/// two chars long and has a nonzero char after its first.
pub open spec fn chunk_by_chars(c: Seq<char>) -> bool {
    c[0] == '0' || (c.len() != 2 && exists|k: int| 1 <= k < c.len() && #[trigger] c[k] != '0')
}

/// Chunks `i..` (between periods) read onto `acc`; empty chunks are skipped and
/// only the first nonempty one counts as first.
pub open spec fn chunks_read(g: Seq<u8>, s: Seq<u8>, acc: Readings, cs: Seq<Seq<char>>, i: int, first: bool, flags: Seq<char>) -> Readings
    decreases cs.len() - i,
{
    if i < 0 || i >= cs.len() {
        acc
    } else if cs[i].len() == 0 {
        chunks_read(g, s, acc, cs, i + 1, first, flags)
    } else if chunk_by_chars(cs[i]) {
        chunks_read(g, s, chars_read(g, s, acc, cs[i], flags), cs, i + 1, false, flags)
    } else {
        chunks_read(g, s, read_words(g, s, acc, cs[i], first, false, flags), cs, i + 1, false, flags)
    }
}

/// How a number without a currency is spoken: its cardinal (or, with an ordinal
/// ending, ordinal) words, decimals read digit by digit after `point`.
pub open spec fn spoken_number(working: Seq<char>, suffix_lower: Option<Seq<char>>) -> Seq<char> {
    let compact = dropped(working, ',');
    if digit_string(working) {
        or_else(cardinal_text(working), working)
    } else if !holds(working, '.') {
        let ord = if (suffix_lower matches Some(l) && ordinal_suffix(l)) {
            ordinal_text(compact)
        } else {
            None
        };
        match ord {
            Some(o) => o,
            None => or_else(cardinal_text(compact), compact),
        }
    } else if compact.len() > 0 && compact[0] == '.' {
        "point "@ + digit_words(compact.drop_first())
    } else {
        let parts = split_on(compact, '.');
        let left = or_else(cardinal_text(parts[0]), parts[0]);
        let right = if parts.len() > 1 {
            digit_words(parts[1])
        } else {
            Seq::empty()
        };
        if right.len() == 0 {
            left
        } else {
            left + " point "@ + right
        }
    }
}

/// The letters ending a number, when the suffix expression finds them at its end.
pub open spec fn number_suffix(w: Seq<char>) -> Option<Seq<char>> {
    if !regex_compiles(NUMBER_SUFFIX_PATTERN@) {
        None
    } else {
        match regex_first_match(NUMBER_SUFFIX_PATTERN@, w) {
            Some(m) => if ends_with(w, m) {
                Some(m)
            } else {
                None
            },
            None => None,
        }
    }
}

/// The lowercase form of a number's ending.
pub open spec fn number_suffix_lower(w: Seq<char>) -> Option<Seq<char>> {
    match number_suffix(w) {
        Some(t) => Some(lowercase_str(t)),
        None => None,
    }
}

/// A number less its ending.
pub open spec fn number_body(w: Seq<char>) -> Seq<char> {
    match number_suffix(w) {
        Some(t) => w.take(w.len() - t.len()),
        None => w,
    }
}

/// The body starts with a minus sign.
pub open spec fn negative_body(w: Seq<char>) -> bool {
    number_body(w).len() > 0 && number_body(w)[0] == '-'
}

/// The body less a leading minus sign.
pub open spec fn number_working(w: Seq<char>) -> Seq<char> {
    if negative_body(w) {
        number_body(w).drop_first()
    } else {
        number_body(w)
    }
}

/// The readings before the body is read: `minus` for a negative number.
pub open spec fn sign_readings(g: Seq<u8>, s: Seq<u8>, w: Seq<char>) -> Readings {
    if negative_body(w) {
        with_reading(no_readings(), looked_up(g, s, "minus"@, None, None, None))
    } else {
        no_readings()
    }
}

/// Which way a number is read.
pub enum NumberForm {
    /// Digits with an ordinal ending.
    Ordinal,
    /// Four digits with nothing before them and no currency.
    Year,
    /// A number inside a token with no period.
    Digits,
    /// Several periods, or a number inside a token.
    Chunks,
    /// An amount of the given currency.
    Money,
    /// Anything else.
    Plain,
}

/// Which way the number `w` is read.
pub open spec fn number_form(g: Seq<u8>, s: Seq<u8>, w: Seq<char>, currency: Option<Seq<char>>, is_head: bool) -> NumberForm {
    let working = number_working(w);
    if digit_string(working) && (number_suffix_lower(w) matches Some(l) && ordinal_suffix(l)) {
        NumberForm::Ordinal
    } else if sign_readings(g, s, w).0.len() == 0 && working.len() == 4 && currency is None && digit_string(working) {
        NumberForm::Year
    } else if !is_head && !holds(working, '.') {
        NumberForm::Digits
    } else if count_of(working, '.') > 1 || !is_head {
        NumberForm::Chunks
    } else if currency is Some {
        NumberForm::Money
    } else {
        NumberForm::Plain
    }
}

/// The readings of a number without a period inside a token: digit by digit when
/// it starts with `0` or is long, as hundreds and tens (with `O` for a zero ten)
/// when it has three digits and does not end in `00`, else as a cardinal.
pub open spec fn digits_read(g: Seq<u8>, s: Seq<u8>, acc: Readings, compact: Seq<char>, flags: Seq<char>) -> Readings {
    if (compact.len() > 0 && compact[0] == '0') || compact.len() > 3 {
        chars_read(g, s, acc, compact, flags)
    } else if compact.len() == 3 && !ends_with(compact, "00"@) {
        let a1 = read_words(g, s, acc, compact.take(1), true, false, flags);
        let tens = compact.skip(1);
        if tens[0] == '0' {
            read_words(g, s, with_reading(a1, looked_up(g, s, "O"@, None, Some(StressLevel::BelowMinusOne), None)), tens.skip(1), false, false, flags)
        } else {
            read_words(g, s, a1, tens, false, false, flags)
        }
    } else {
        read_words(g, s, acc, compact, true, false, flags)
    }
}

/// All readings of the number `w`.
pub open spec fn number_readings(g: Seq<u8>, s: Seq<u8>, british: bool, w: Seq<char>, currency: Option<Seq<char>>, is_head: bool, flags: Seq<char>) -> Readings {
    let working = number_working(w);
    let acc = sign_readings(g, s, w);
    match number_form(g, s, w, currency, is_head) {
        NumberForm::Ordinal => read_words(g, s, acc, or_else(ordinal_text(working), working), true, true, flags),
        NumberForm::Year => read_words(g, s, acc, or_else(year_text(working), working), true, true, flags),
        NumberForm::Digits => digits_read(g, s, acc, dropped(working, ','), flags),
        NumberForm::Chunks => chunks_read(g, s, acc, split_on(dropped(working, ','), '.'), 0, true, flags),
        NumberForm::Money => match currency_units(currency->Some_0) {
            Some((unit, cents)) => if currency_amount(working) {
                let (v0, v1) = amounts(working);
                money_read(g, s, british, acc, quantities(v0, v1, unit, cents), 0, flags)
            } else {
                acc
            },
            None => acc,
        },
        NumberForm::Plain => read_words(g, s, acc, spoken_number(working, number_suffix_lower(w)), true, true, flags),
    }
}

/// A number's pronunciation and rating: its readings joined by spaces, rated by
/// the least of their ratings, with the ending of `s`, `ed` or `ing` added.
pub open spec fn number_reading(g: Seq<u8>, s: Seq<u8>, british: bool, w: Seq<char>, currency: Option<Seq<char>>, is_head: bool, flags: Seq<char>) -> (Option<Seq<char>>, Option<i32>) {
    let acc = number_readings(g, s, british, w, currency, is_head, flags);
    if acc.0.len() == 0 {
        (None, None)
    } else {
        let ph = spaced(acc.0);
        let rating = Some(least(acc.1));
        match number_suffix_lower(w) {
            Some(l) => if l == "s"@ || l == "'s"@ {
                (plural_of(ph, british), rating)
            } else if l == "ed"@ || l == "'d"@ {
                (past_of(ph, british), rating)
            } else if l == "ing"@ {
                (progressive_of(ph, british), rating)
            } else {
                (Some(ph), rating)
            },
            None => (Some(ph), rating),
        }
    }
}

/// A char that takes one byte in UTF-8.
pub open spec fn one_byte(c: char) -> bool {
    (c as u32) < 128
}

/// The number is read without cutting a string inside a multi-byte char: a
/// three-digit number inside a token starts with a one-byte char, and so does
/// each chunk that is checked for nonzero chars after its first.
pub open spec fn number_cuts_ok(g: Seq<u8>, s: Seq<u8>, w: Seq<char>, currency: Option<Seq<char>>, is_head: bool) -> bool {
    let working = number_working(w);
    match number_form(g, s, w, currency, is_head) {
        NumberForm::Digits => {
            let compact = dropped(working, ',');
            (!((compact.len() > 0 && compact[0] == '0') || compact.len() > 3) && compact.len() == 3
                && !ends_with(compact, "00"@)) ==> one_byte(compact[0])
        },
        NumberForm::Chunks => {
            let cs = split_on(dropped(working, ','), '.');
            forall|i: int| 0 <= i < cs.len() && #[trigger] cs[i].len() > 0 && cs[i][0] != '0' && cs[i].len() != 2
                ==> one_byte(cs[i][0])
        },
        _ => true,
    }
}

/// The endings a number word may carry, in the order they are tried.
pub open spec fn number_ending(i: int) -> Seq<char> {
    if i == 0 {
        "ing"@
    } else if i == 1 {
        "'d"@
    } else if i == 2 {
        "ed"@
    } else if i == 3 {
        "'s"@
    } else if i == 4 {
        "st"@
    } else if i == 5 {
        "nd"@
    } else if i == 6 {
        "rd"@
    } else if i == 7 {
        "th"@
    } else {
        "s"@
    }
}

/// The first ending, trying from `i` on, that `l` ends with.
pub open spec fn first_ending(l: Seq<char>, i: int) -> Option<int>
    decreases 9 - i,
{
    if i < 0 || i >= 9 {
        None
    } else if ends_with(l, number_ending(i)) {
        Some(i)
    } else {
        first_ending(l, i + 1)
    }
}

/// Where a number word is cut to drop the ending its lowercase form shows: its
/// char count less the ending's, used as a byte length.
pub open spec fn number_cut(w: Seq<char>) -> Option<int> {
    match first_ending(lowercase_str(w), 0) {
        Some(i) => Some(w.len() - number_ending(i).len()),
        None => None,
    }
}

/// The cut is not negative and, where it shortens the word, falls between chars.
pub open spec fn number_cut_fits(w: Seq<char>) -> bool {
    match number_cut(w) {
        Some(k) => k >= 0 && (k < encode_utf8(w).len() ==> valid_utf8(encode_utf8(w).take(k))),
        None => true,
    }
}

/// The word less its ending.
pub open spec fn number_candidate(w: Seq<char>) -> Seq<char> {
    match number_cut(w) {
        Some(k) => if k < encode_utf8(w).len() {
            decode_utf8(encode_utf8(w).take(k))
        } else {
            w
        },
        None => w,
    }
}

/// Made of numeric chars, commas and periods, and (at the head of a number) a
/// leading minus sign.
pub open spec fn number_shaped(c: Seq<char>, is_head: bool) -> bool {
    forall|k: int|
        0 <= k < c.len() ==> numeric_char(#[trigger] c[k]) || c[k] == ',' || c[k] == '.' || (is_head && k == 0
            && c[k] == '-')
}

/// A word is read as a number: it has a numeric char, and less its ending it is
/// shaped like a number.
pub open spec fn number_like(w: Seq<char>, is_head: bool) -> bool {
    has_numeric(w) && number_shaped(number_candidate(w), is_head)
}

/// Phonemes with the plural of a currency's unit added after a space.
pub open spec fn currency_appended(g: Seq<u8>, s: Seq<u8>, british: bool, p: Seq<char>, currency: Option<Seq<char>>) -> Seq<char> {
    match currency {
        None => p,
        Some(c) => match currency_units(c) {
            None => p,
            Some((unit, _)) => match plural_reading(g, s, british, unit + "s"@, None, None, None).0 {
                Some(pl) => p + seq![' '] + pl,
                None => p,
            },
        },
    }
}

/// `t` with curly single quotes straightened.
pub open spec fn straightened(t: Seq<char>) -> Seq<char> {
    Seq::new(t.len(), |k: int| if t[k] == '\u{2018}' || t[k] == '\u{2019}' { '\'' } else { t[k] })
}

/// The word a token is read as: its alias or text, curly single quotes straightened.
pub open spec fn token_word(t: TokenView) -> Seq<char> {
    straightened(match t.alias {
        Some(a) => a,
        None => t.text,
    })
}

/// The stress capitalisation gives a word: none in lowercase, above one in
/// capitals, a half otherwise.
pub open spec fn cap_stress(w: Seq<char>) -> Option<StressLevel> {
    if w == lowercase_str(w) {
        None
    } else if all_uppercase(w) {
        Some(StressLevel::AboveOne)
    } else {
        Some(StressLevel::Half)
    }
}

/// A token's pronunciation and rating: the word's (currency added and the
/// token's stress applied), else the number's (with the token's stress).
pub open spec fn token_reading(g: Seq<u8>, s: Seq<u8>, british: bool, t: TokenView, ctx: TokenContext) -> (Option<Seq<char>>, Option<i32>) {
    let w = token_word(t);
    let cur = t.currency;
    let wr = word_reading(g, s, british, w, Some(t.tag), cap_stress(w), ctx);
    match wr.0 {
        Some(p) => (stress_applied(Some(currency_appended(g, s, british, p, cur)), level_of(t.stress)), wr.1),
        None => if number_like(w, t.is_head) {
            let nr = number_reading(g, s, british, w, cur, t.is_head, t.num_flags);
            (stress_applied(nr.0, level_of(t.stress)), nr.1)
        } else {
            (None, None)
        },
    }
}

/// A token is read without cutting inside a char or below nothing.
pub open spec fn token_reading_ok(g: Seq<u8>, s: Seq<u8>, british: bool, t: TokenView, ctx: TokenContext) -> bool {
    let w = token_word(t);
    let cur = t.currency;
    word_reading(g, s, british, w, Some(t.tag), cap_stress(w), ctx).0 is None ==> (
    (has_numeric(w) ==> number_cut_fits(w)) && (number_like(w, t.is_head) ==> number_cuts_ok(g, s, w, cur, t.is_head)))
}

/// A word that gold holds with a single pronunciation is read as recorded, with
/// the given stress applied, and rated 4.
pub proof fn law_gold_word_reads_as_recorded(g: Seq<u8>, s: Seq<u8>, w: Seq<char>, tag: Option<Seq<char>>, stress: Option<StressLevel>, ctx: Option<TokenContext>)
    requires
        gold_index(g, key_of(w)) matches Some(i) && gold_single(g, i),
    ensures
        looked_up(g, s, w, tag, stress, ctx) == (
            stress_applied(Some(decode_utf8(gold_single_value(g, gold_index(g, key_of(w))->Some_0))), stress),
            Some(4i32),
        ),
{
    assert(lookup_word(g, w) == w);
    assert(!proper_guess(g, w, tag));
}

/// A word that gold lacks and silver holds (and that is not all capitals) is read
/// as silver records it, with the given stress applied, and rated 3.
pub proof fn law_silver_word_reads_as_recorded(g: Seq<u8>, s: Seq<u8>, w: Seq<char>, tag: Option<Seq<char>>, stress: Option<StressLevel>, ctx: Option<TokenContext>)
    requires
        !in_gold(g, w),
        !all_uppercase(w),
        silver_lookup(s, key_of(w)) is Some,
    ensures
        looked_up(g, s, w, tag, stress, ctx) == (stress_applied(opt_text(silver_lookup(s, key_of(w))), stress), Some(3i32)),
{
    assert(lookup_word(g, w) == w);
    assert(!proper_guess(g, w, tag));
}

/// The plural and progressive endings keep the stem in front of them; the past
/// ending keeps all of it but a final `t` that American English flaps.
pub proof fn law_endings_keep_the_stem(stem: Seq<char>, british: bool)
    ensures
        plural_of(stem, british) matches Some(r) ==> r.take(stem.len() as int) == stem,
        past_of(stem, british) matches Some(r) ==> (r.take(stem.len() as int) == stem || (stem.last() == 't'
            && r.take(stem.len() - 1) == stem.drop_last())),
        progressive_of(stem, british) matches Some(r) ==> (r.take(stem.len() as int) == stem || (stem.last() == 't'
            && r.take(stem.len() - 1) == stem.drop_last())),
{
    if let Some(r) = plural_of(stem, british) {
        assert(r.take(stem.len() as int) =~= stem);
    }
    if let Some(r) = past_of(stem, british) {
        if r.take(stem.len() as int) != stem {
            assert(r.take(stem.len() - 1) =~= stem.drop_last());
        }
    }
    if let Some(r) = progressive_of(stem, british) {
        if r.take(stem.len() as int) != stem {
            assert(r.take(stem.len() - 1) =~= stem.drop_last());
        }
    }
}

/// The optional text of an optional string.
pub open spec fn opt_view(o: Option<&str>) -> Option<Seq<char>> {
    match o {
        Some(t) => Some(t@),
        None => None,
    }
}

proof fn lemma_str_text(v: &str)
    ensures
        decode_utf8(v.spec_bytes()) == v@,
{
    vstd::utf8::encode_utf8_decode_utf8(v@);
}

/// Whether two strings are equal.
fn same_str(a: &str, b: &str) -> (r: bool)
    ensures
        r == (a@ == b@),
{
    let ca = chars_of(a);
    chars_eq_str(ca.as_slice(), b)
}

/// Whether an optional tag is the given one.
fn tag_is(tag: Option<&str>, t: &str) -> (r: bool)
    ensures
        r == (opt_view(tag) == Some(t@)),
{
    match tag {
        Some(x) => same_str(x, t),
        None => false,
    }
}

/// A pronunciation dictionary: the gold and silver tables of one accent.
pub struct Lexicon {
    pub british: bool,
    golds: BinGoldMap,
    silvers: BinSilverMap,
}

impl Lexicon {
    /// The gold table's bytes.
    pub closed spec fn gold_bytes(&self) -> Seq<u8> {
        self.golds.bytes()
    }

    /// The silver table's bytes.
    pub closed spec fn silver_bytes(&self) -> Seq<u8> {
        self.silvers.bytes()
    }

    /// Whether the tables are British English ones.
    pub closed spec fn accent_british(&self) -> bool {
        self.british
    }

    /// Both tables can be read throughout.
    pub open spec fn wf(&self) -> bool {
        gold_readable(self.gold_bytes()) && silver_readable(self.silver_bytes())
    }

    /// A dictionary over the given gold and silver tables, checked first: their
    /// headers, then every entry and string they point to. A table that fails is
    /// reported by the header check's message, or as unreadable.
    pub fn new(british: bool, gold_data: &'static [u8], silver_data: &'static [u8]) -> (r: Result<Lexicon, &'static str>)
        ensures
            r matches Ok(l) ==> l.wf() && l.accent_british() == british && l.gold_bytes() == gold_data@
                && l.silver_bytes() == silver_data@,
            r is Ok <==> gold_header_ok(gold_data@) && silver_header_ok(silver_data@) && gold_readable(
                gold_data@,
            ) && silver_readable(silver_data@),
    {
        let golds = BinGoldMap::new(gold_data);
        let silvers = BinSilverMap::new(silver_data);
        match golds.validate() {
            Ok(()) => {},
            Err(e) => return Err(e),
        }
        match silvers.validate() {
            Ok(()) => {},
            Err(e) => return Err(e),
        }
        if !golds.is_readable() {
            return Err("Gold lexicon has unreadable entries");
        }
        if !silvers.is_readable() {
            return Err("Silver lexicon has unreadable entries");
        }
        Ok(Lexicon { british, golds, silvers })
    }

    /// The coarse tag of a fine tag: `VERB`, `NOUN`, `ADV` or `ADJ` by prefix, the
    /// tag itself otherwise; none for no tag.
    pub fn parent_tag(tag: Option<&str>) -> (r: Option<String>)
        ensures
            r.deep_view() == match opt_view(tag) {
                Some(t) => Some(parent_of(t)),
                None => None,
            },
    {
        let t = match tag {
            Some(t) => t,
            None => return None,
        };
        let cs = chars_of(t);
        let c = cs.as_slice();
        if starts_with_str(c, "VB") {
            return Some(String::from_str("VERB"));
        }
        if starts_with_str(c, "NN") {
            return Some(String::from_str("NOUN"));
        }
        if starts_with_str(c, "ADV") || starts_with_str(c, "RB") {
            return Some(String::from_str("ADV"));
        }
        if starts_with_str(c, "ADJ") || starts_with_str(c, "JJ") {
            return Some(String::from_str("ADJ"));
        }
        Some(String::from_str(t))
    }

    /// The weight of phonemes (zero for none): two per diphthong or affricate, one
    /// per other char.
    pub fn stress_weight(phonemes: Option<&str>) -> (w: i32)
        requires
            phonemes matches Some(p) ==> 2 * p@.len() <= i32::MAX,
        ensures
            w == match phonemes {
                Some(p) => weight(p@),
                None => 0,
            },
    {
        let p = match phonemes {
            Some(p) => p,
            None => return 0,
        };
        let cs = chars_of(p);
        let mut acc: i32 = 0;
        let mut i: usize = 0;
        while i < cs.len()
            invariant
                cs@ == p@,
                2 * p@.len() <= i32::MAX,
                i <= cs@.len(),
                acc == weight(cs@.take(i as int)),
                acc <= 2 * i,
            decreases cs@.len() - i,
        {
            assert(cs@.take(i + 1).drop_last() =~= cs@.take(i as int));
            if is_diphthong(cs[i]) {
                acc = acc + 2;
            } else {
                acc = acc + 1;
            }
            i += 1;
        }
        assert(cs@.take(cs@.len() as int) =~= cs@);
        acc
    }

    /// The default pronunciation gold holds for `key`.
    pub fn gold_string(&self, key: &str) -> (r: Option<String>)
        requires
            self.wf(),
        ensures
            r.deep_view() == opt_text(gold_default(self.gold_bytes(), key@)),
    {
        let found = self.golds.get(key);
        let ghost g = self.gold_bytes();
        match found {
            Some(BinLexiconValue::Single(v)) => {
                proof {
                    lemma_str_text(v);
                }
                Some(String::from_str(v))
            },
            Some(BinLexiconValue::Variants(vs)) => {
                let ghost i = gold_index(g, key.spec_bytes())->Some_0;
                assert(vs.tags() == gold_tags(g, i));
                assert(vs.values() == gold_values(g, i));
                match vs.get("DEFAULT") {
                    Some(Some(v)) => {
                        proof {
                            lemma_str_text(v);
                        }
                        Some(String::from_str(v))
                    },
                    _ => None,
                }
            },
            None => None,
        }
    }

    /// A plural's phonemes from its stem's (none for no stem or an empty one).
    pub fn plural_suffix(&self, stem: Option<String>) -> (r: Option<String>)
        ensures
            r.deep_view() == match stem.deep_view() {
                Some(s) => plural_of(s, self.accent_british()),
                None => None,
            },
    {
        let stem = match stem {
            Some(s) => s,
            None => return None,
        };
        let mut cs = chars_of(stem.as_str());
        let n = cs.len();
        if n == 0 {
            return None;
        }
        let l = cs[n - 1];
        if l == 'p' || l == 't' || l == 'k' || l == 'f' || l == '\u{3b8}' {
            cs.push('s');
        } else if l == 's' || l == 'z' || l == '\u{283}' || l == '\u{292}' || l == '\u{2a7}' || l
            == '\u{2a4}' {
            cs.push(if self.british { '\u{26a}' } else { '\u{1d7b}' });
            cs.push('z');
        } else {
            cs.push('z');
        }
        let ghost expected = plural_of(stem@, self.accent_british())->Some_0;
        assert(cs@ =~= expected);
        Some(string_from_chars(cs.as_slice()))
    }

    /// A past tense's phonemes from its stem's (none for no stem or an empty one).
    pub fn ed_suffix(&self, stem: Option<String>) -> (r: Option<String>)
        ensures
            r.deep_view() == match stem.deep_view() {
                Some(s) => past_of(s, self.accent_british()),
                None => None,
            },
    {
        let stem = match stem {
            Some(s) => s,
            None => return None,
        };
        let mut cs = chars_of(stem.as_str());
        let n = cs.len();
        if n == 0 {
            return None;
        }
        let l = cs[n - 1];
        let ghost expected = past_of(stem@, self.accent_british())->Some_0;
        if l == 'p' || l == 'k' || l == 'f' || l == '\u{3b8}' || l == '\u{283}' || l == 's' || l
            == '\u{2a7}' {
            cs.push('t');
        } else if l == 'd' {
            cs.push(if self.british { '\u{26a}' } else { '\u{1d7b}' });
            cs.push('d');
        } else if l != 't' {
            cs.push('d');
        } else if self.british || n < 2 {
            cs.push('\u{26a}');
            cs.push('d');
        } else if is_us_tau(cs[n - 2]) {
            cs.pop();
            cs.push('\u{27e}');
            cs.push('\u{1d7b}');
            cs.push('d');
        } else {
            cs.push('\u{1d7b}');
            cs.push('d');
        }
        assert(cs@ =~= expected);
        Some(string_from_chars(cs.as_slice()))
    }

    /// A progressive form's phonemes from its stem's (none for no stem, an empty
    /// one, or a British stem ending in `ə` or `ː`).
    pub fn ing_suffix(&self, stem: Option<String>) -> (r: Option<String>)
        ensures
            r.deep_view() == match stem.deep_view() {
                Some(s) => progressive_of(s, self.accent_british()),
                None => None,
            },
    {
        let stem = match stem {
            Some(s) => s,
            None => return None,
        };
        let mut cs = chars_of(stem.as_str());
        let n = cs.len();
        if n == 0 {
            return None;
        }
        let l = cs[n - 1];
        let ghost expected = progressive_of(stem@, self.accent_british());
        if self.british {
            if l == '\u{259}' || l == '\u{2d0}' {
                return None;
            }
        } else if n > 1 {
            if l == 't' && is_us_tau(cs[n - 2]) {
                cs.pop();
                cs.push('\u{27e}');
                cs.push('\u{26a}');
                cs.push('\u{14b}');
                assert(cs@ =~= expected->Some_0);
                return Some(string_from_chars(cs.as_slice()));
            }
        }
        cs.push('\u{26a}');
        cs.push('\u{14b}');
        assert(cs@ =~= expected->Some_0);
        Some(string_from_chars(cs.as_slice()))
    }

    /// A name spelled letter by letter from gold (none when no letter has a
    /// pronunciation), rated 3.
    pub fn get_nnp(&self, word: &str) -> (r: (Option<String>, Option<i32>))
        requires
            self.wf(),
        ensures
            r.0.deep_view() == spelled_out(self.gold_bytes(), word@).0,
            r.1 == spelled_out(self.gold_bytes(), word@).1,
    {
        let ghost g = self.gold_bytes();
        let cs = chars_of(word);
        let mut pieces: Vec<char> = Vec::new();
        let mut i: usize = 0;
        while i < cs.len()
            invariant
                self.wf(),
                g == self.gold_bytes(),
                cs@ == word@,
                i <= cs@.len(),
                pieces@ == letter_pieces(g, cs@.take(i as int)),
            decreases cs@.len() - i,
        {
            assert(cs@.take(i + 1).drop_last() =~= cs@.take(i as int));
            if is_alphabetic(cs[i]) {
                let up = char_to_uppercase(cs[i]);
                match self.gold_string(up.as_str()) {
                    Some(p) => extend_chars(&mut pieces, p.as_str()),
                    None => {
                        assert(pieces@ =~= pieces@ + Seq::<char>::empty());
                    },
                }
            } else {
                assert(pieces@ =~= pieces@ + Seq::<char>::empty());
            }
            i += 1;
        }
        assert(cs@.take(cs@.len() as int) =~= cs@);
        if pieces.len() == 0 {
            return (None, None);
        }
        let ph = string_from_chars(pieces.as_slice());
        match apply_stress(Some(ph), Some(StressLevel::Zero)) {
            Some(st) => (Some(first_mark_raised(st.as_str())), Some(3)),
            None => (None, None),
        }
    }

    /// Whether a word counts as known (see `known`).
    pub fn is_known(&self, word: &str, tag: Option<&str>) -> (b: bool)
        requires
            self.wf(),
        ensures
            b == known(self.gold_bytes(), self.silver_bytes(), word@),
    {
        if self.golds.contains_key(word) || symbol_for(word).is_some() || self.silvers.contains_key(word) {
            return true;
        }
        let ghost outside = !in_gold(self.gold_bytes(), word@) && symbol_word(word@) is None
            && silver_lookup(self.silver_bytes(), key_of(word@)) is None;
        assert(outside);
        let cs = chars_of(word);
        let mut i: usize = 0;
        while i < cs.len()
            invariant
                outside,
                outside == (!in_gold(self.gold_bytes(), word@) && symbol_word(word@) is None
                    && silver_lookup(self.silver_bytes(), key_of(word@)) is None),
                cs@ == word@,
                i <= cs@.len(),
                forall|k: int| 0 <= k < i ==> ordinal_char(#[trigger] cs@[k]),
            decreases cs@.len() - i,
        {
            let c = cs[i];
            if !(c == '\'' || ('a' <= c && c <= 'z') || ('A' <= c && c <= 'Z')) {
                assert(!ordinal_char(cs@[i as int]));
                return false;
            }
            i += 1;
        }
        if cs.len() == 1 {
            return true;
        }
        let upper = chars_all_uppercase(cs.as_slice());
        if upper {
            let low = to_lowercase(cs.as_slice());
            let ls = string_from_chars(low.as_slice());
            if self.golds.contains_key(ls.as_str()) {
                return true;
            }
            assert(!in_gold(self.gold_bytes(), lowercase_str(word@)));
        }
        assert(!(all_uppercase(word@) && in_gold(self.gold_bytes(), lowercase_str(word@))));
        let mut k: usize = 1;
        while k < cs.len()
            invariant
                outside,
                outside == (!in_gold(self.gold_bytes(), word@) && symbol_word(word@) is None
                    && silver_lookup(self.silver_bytes(), key_of(word@)) is None),
                !(all_uppercase(word@) && in_gold(self.gold_bytes(), lowercase_str(word@))),
                cs@.len() != 1,
                forall|k: int| 0 <= k < cs@.len() ==> ordinal_char(#[trigger] cs@[k]),
                cs@ == word@,
                1 <= k <= cs@.len() || cs@.len() == 0,
                forall|j: int| 1 <= j < k ==> !('a' <= #[trigger] cs@[j] && cs@[j] <= 'z'),
            decreases cs@.len() - k,
        {
            let c = cs[k];
            if 'a' <= c && c <= 'z' {
                assert(after_first(cs@)[k - 1] == c);
                assert(!no_ascii_lowercase(after_first(cs@)));
                return false;
            }
            k += 1;
        }
        assert(no_ascii_lowercase(after_first(cs@))) by {
            assert forall|j: int| 0 <= j < after_first(cs@).len() implies !('a' <= #[trigger] after_first(cs@)[j]
                && after_first(cs@)[j] <= 'z') by {
                assert(after_first(cs@)[j] == cs@[j + 1]);
            }
        }
        true
    }

    /// A word's pronunciation and rating from the tables (see `looked_up`).
    pub fn lookup(&self, word: &str, tag: Option<&str>, stress: Option<StressLevel>, ctx: Option<TokenContext>) -> (r: (Option<String>, Option<i32>))
        requires
            self.wf(),
        ensures
            r.0.deep_view() == looked_up(self.gold_bytes(), self.silver_bytes(), word@, opt_view(tag), stress, ctx).0,
            r.1 == looked_up(self.gold_bytes(), self.silver_bytes(), word@, opt_view(tag), stress, ctx).1,
    {
        let ghost g = self.gold_bytes();
        let ghost sv = self.silver_bytes();
        let cs = chars_of(word);
        let upper_unknown = chars_all_uppercase(cs.as_slice()) && !self.golds.contains_key(word);
        let lw = if upper_unknown {
            let low = to_lowercase(cs.as_slice());
            string_from_chars(low.as_slice())
        } else {
            String::from_str(word)
        };
        assert(lw@ == lookup_word(g, word@));
        let proper = upper_unknown && tag_is(tag, "NNP");
        assert(proper == proper_guess(g, word@, opt_view(tag)));
        let mut phonemes: Option<&'static str> = None;
        let mut rating: i32 = 4;
        match self.golds.get(lw.as_str()) {
            Some(BinLexiconValue::Single(v)) => {
                phonemes = Some(v);
            },
            Some(BinLexiconValue::Variants(vs)) => {
                let ghost i = gold_index(g, key_of(lw@))->Some_0;
                assert(vs.tags() == gold_tags(g, i));
                assert(vs.values() == gold_values(g, i));
                let selected: Option<String> = match ctx {
                    None => match tag {
                        Some(t) => Some(String::from_str(t)),
                        None => None,
                    },
                    Some(c) => {
                        if c.future_vowel.is_none() && vs.contains_key("None") {
                            Some(String::from_str("None"))
                        } else {
                            match tag {
                                Some(t) => if vs.contains_key(t) {
                                    Some(String::from_str(t))
                                } else {
                                    Lexicon::parent_tag(Some(t))
                                },
                                None => None,
                            }
                        }
                    },
                };
                assert(selected.deep_view() == chosen_tag(g, i, opt_view(tag), ctx));
                let first = match &selected {
                    Some(t) => vs.get(t.as_str()),
                    None => vs.get("DEFAULT"),
                };
                phonemes = match first {
                    Some(Some(v)) => Some(v),
                    _ => match vs.get("DEFAULT") {
                        Some(Some(v)) => Some(v),
                        _ => None,
                    },
                };
            },
            None => {},
        }
        assert(str_bytes_of(phonemes) == gold_reading(g, lw@, opt_view(tag), ctx));
        if phonemes.is_none() && !proper {
            phonemes = self.silvers.get(lw.as_str());
            if phonemes.is_some() {
                rating = 3;
            }
        }
        assert(str_bytes_of(phonemes) == table_reading(g, sv, word@, opt_view(tag), ctx).0);
        assert(rating == table_reading(g, sv, word@, opt_view(tag), ctx).1);
        let needs_spelling = match phonemes {
            None => true,
            Some(v) => {
                proof {
                    lemma_str_text(v);
                }
                let vc = chars_of(v);
                proper && !holds_char(vc.as_slice(), '\u{2c8}')
            },
        };
        if needs_spelling {
            let (p, r) = self.get_nnp(lw.as_str());
            if p.is_some() {
                return (p, r);
            }
        }
        let text = match phonemes {
            Some(v) => {
                proof {
                    lemma_str_text(v);
                }
                Some(String::from_str(v))
            },
            None => None,
        };
        assert(text.deep_view() == opt_text(table_reading(g, sv, word@, opt_view(tag), ctx).0));
        (apply_stress(text, stress), Some(rating))
    }
}

/// The bytes of an optional table string.
pub open spec fn str_bytes_of(o: Option<&str>) -> Option<Seq<u8>> {
    match o {
        Some(v) => Some(v.spec_bytes()),
        None => None,
    }
}

/// The word a symbol is read as.
fn symbol_for(w: &str) -> (r: Option<&'static str>)
    ensures
        opt_view(r) == symbol_word(w@),
{
    if same_str(w, "%") {
        Some("percent")
    } else if same_str(w, "&") {
        Some("and")
    } else if same_str(w, "+") {
        Some("plus")
    } else if same_str(w, "@") {
        Some("at")
    } else {
        None
    }
}

/// The word a symbol is read as where it joins parts of an address.
fn add_symbol_for(w: &str) -> (r: Option<&'static str>)
    ensures
        opt_view(r) == add_symbol_word(w@),
{
    if same_str(w, ".") {
        Some("dot")
    } else if same_str(w, "/") {
        Some("slash")
    } else {
        None
    }
}

/// `s` with its first secondary stress mark raised to primary.
fn first_mark_raised(s: &str) -> (r: String)
    ensures
        r@ == first_replaced(s@, '\u{2cc}', '\u{2c8}'),
{
    let cs = chars_of(s);
    let mut out: Vec<char> = Vec::new();
    let mut i: usize = 0;
    assert(cs@.skip(0) =~= cs@);
    while i < cs.len()
        invariant
            cs@ == s@,
            i <= cs@.len(),
            out@ + first_replaced(cs@.skip(i as int), '\u{2cc}', '\u{2c8}') == first_replaced(cs@, '\u{2cc}', '\u{2c8}'),
            out@.len() == i,
        decreases cs@.len() - i,
    {
        let ghost rest = cs@.skip(i as int);
        assert(rest.drop_first() =~= cs@.skip(i + 1));
        if cs[i] == '\u{2cc}' {
            out.push('\u{2c8}');
            i += 1;
            while i < cs.len()
                invariant
                    cs@ == s@,
                    i <= cs@.len(),
                    out@ + cs@.skip(i as int) == first_replaced(cs@, '\u{2cc}', '\u{2c8}'),
                decreases cs@.len() - i,
            {
                assert(cs@.skip(i as int) =~= seq![cs@[i as int]] + cs@.skip(i + 1));
                out.push(cs[i]);
                i += 1;
                assert(out@ + cs@.skip(i as int) =~= first_replaced(cs@, '\u{2cc}', '\u{2c8}'));
            }
            assert(cs@.skip(i as int) =~= Seq::<char>::empty());
            assert(out@ =~= out@ + cs@.skip(i as int));
            return string_from_chars(out.as_slice());
        }
        out.push(cs[i]);
        i += 1;
        assert(out@ + first_replaced(cs@.skip(i as int), '\u{2cc}', '\u{2c8}') =~= first_replaced(cs@, '\u{2cc}', '\u{2c8}'));
    }
    assert(cs@.skip(i as int) =~= Seq::<char>::empty());
    assert(out@ =~= out@ + first_replaced(cs@.skip(i as int), '\u{2cc}', '\u{2c8}'));
    string_from_chars(out.as_slice())
}


/// Whether the regular expression `pattern` compiles and matches somewhere in `text`.
fn pattern_matches(pattern: &str, text: &str) -> (b: bool)
    ensures
        b == pattern_found(pattern@, text@),
{
    match compile_regex(pattern) {
        Ok(re) => regex_is_match(&re, text),
        Err(_) => false,
    }
}

/// Whether an optional tag starts with `p`.
fn tag_starts_with(tag: Option<&str>, p: &str) -> (b: bool)
    ensures
        b == tag_starts(opt_view(tag), p@),
{
    match tag {
        Some(t) => {
            let tc = chars_of(t);
            starts_with_str(tc.as_slice(), p)
        },
        None => false,
    }
}

/// The string spelled by the first `k` chars of `cs`.
fn prefix(cs: &[char], k: usize) -> (s: String)
    requires
        k <= cs@.len(),
    ensures
        s@ == cs@.take(k as int),
{
    let s = string_from_range(cs, 0, k);
    assert(cs@.subrange(0, k as int) =~= cs@.take(k as int));
    s
}

/// The first `k` chars of `cs` followed by `suffix`.
fn prefix_with(cs: &[char], k: usize, suffix: &str) -> (s: String)
    requires
        k <= cs@.len(),
    ensures
        s@ == cs@.take(k as int) + suffix@,
{
    let mut out: Vec<char> = Vec::new();
    let mut i: usize = 0;
    while i < k
        invariant
            k <= cs@.len(),
            i <= k,
            out@ == cs@.take(i as int),
        decreases k - i,
    {
        out.push(cs[i]);
        i += 1;
        assert(out@ =~= cs@.take(i as int));
    }
    extend_chars(&mut out, suffix);
    string_from_chars(out.as_slice())
}

/// Whether a period stands between two other chars of `cs`.
fn has_inner_dot(cs: &[char]) -> (b: bool)
    ensures
        b == exists|i: int, j: int, k: int|
            #![trigger cs@[i], cs@[j], cs@[k]]
            0 <= j < i < k < cs@.len() && cs@[i] == '.' && cs@[j] != '.' && cs@[k] != '.',
{
    let n = cs.len();
    let mut lo: usize = 0;
    while lo < n && cs[lo] == '.'
        invariant
            n == cs@.len(),
            lo <= n,
            forall|j: int| 0 <= j < lo ==> #[trigger] cs@[j] == '.',
        decreases n - lo,
    {
        lo += 1;
    }
    if lo == n {
        return false;
    }
    let mut hi: usize = n;
    while hi > lo + 1 && cs[hi - 1] == '.'
        invariant
            n == cs@.len(),
            lo < hi <= n,
            cs@[lo as int] != '.',
            forall|j: int| hi <= j < n ==> #[trigger] cs@[j] == '.',
        decreases hi,
    {
        hi -= 1;
    }
    if hi == lo + 1 {
        assert forall|i: int, j: int, k: int|
            #![trigger cs@[i], cs@[j], cs@[k]]
            0 <= j < i < k < cs@.len() && cs@[i] == '.' && cs@[j] != '.' implies cs@[k] == '.' by {
            if j < lo as int {
                assert(cs@[j] == '.');
            }
        }
        return false;
    }
    let mut i: usize = lo + 1;
    while i < hi - 1
        invariant
            n == cs@.len(),
            lo < i <= hi - 1,
            hi <= n,
            cs@[lo as int] != '.',
            cs@[hi - 1] != '.',
            forall|j: int| 0 <= j < lo ==> #[trigger] cs@[j] == '.',
            forall|j: int| hi <= j < n ==> #[trigger] cs@[j] == '.',
            forall|j: int| lo < j < i ==> #[trigger] cs@[j] != '.',
        decreases hi - i,
    {
        if cs[i] == '.' {
            assert(cs@[i as int] == '.' && cs@[lo as int] != '.' && cs@[hi - 1] != '.');
            return true;
        }
        i += 1;
    }
    assert forall|i: int, j: int, k: int|
        #![trigger cs@[i], cs@[j], cs@[k]]
        0 <= j < i < k < cs@.len() && cs@[i] == '.' && cs@[j] != '.' implies cs@[k] == '.' by {
        if j < lo as int {
            assert(cs@[j] == '.');
        }
        if k >= hi as int {
            assert(cs@[k] == '.');
        } else {
            assert(lo < i < hi - 1);
            assert(cs@[i] != '.');
        }
    }
    false
}

/// Whether every char of `cs` but the periods is alphabetic.
fn letters_between_dots(cs: &[char]) -> (b: bool)
    ensures
        b == forall|k: int| 0 <= k < cs@.len() && cs@[k] != '.' ==> alphabetic_char(#[trigger] cs@[k]),
{
    let n = cs.len();
    let mut k: usize = 0;
    while k < n
        invariant
            n == cs@.len(),
            k <= n,
            forall|j: int| 0 <= j < k && cs@[j] != '.' ==> alphabetic_char(#[trigger] cs@[j]),
        decreases n - k,
    {
        if cs[k] != '.' && !is_alphabetic(cs[k]) {
            return false;
        }
        k += 1;
    }
    true
}

/// Whether no three chars in a row of `cs` lack a period.
fn short_runs(cs: &[char]) -> (b: bool)
    ensures
        b == forall|k: int| 0 <= k < cs@.len() - 2 ==> #[trigger] dot_within(cs@, k),
{
    let n = cs.len();
    let mut k: usize = 0;
    while k < n && n - k > 2
        invariant
            n == cs@.len(),
            k <= n,
            forall|j: int| 0 <= j < k && j < n - 2 ==> #[trigger] dot_within(cs@, j),
        decreases n - k,
    {
        if !(cs[k] == '.' || cs[k + 1] == '.' || cs[k + 2] == '.') {
            assert(!dot_within(cs@, k as int));
            return false;
        }
        k += 1;
    }
    true
}

/// Whether `cs` spells initials with periods (see `dotted_initials`).
fn is_dotted_initials(cs: &[char]) -> (b: bool)
    ensures
        b == dotted_initials(cs@),
{
    has_inner_dot(cs) && letters_between_dots(cs) && short_runs(cs)
}

impl Lexicon {
    /// A word read by rule (see `special_case`).
    pub fn get_special_case(&self, word: &str, tag: Option<&str>, stress: Option<StressLevel>, ctx: TokenContext) -> (r: (Option<String>, Option<i32>))
        requires
            self.wf(),
        ensures
            r.0.deep_view() == special_case(self.gold_bytes(), self.silver_bytes(), word@, opt_view(tag), stress, ctx).0,
            r.1 == special_case(self.gold_bytes(), self.silver_bytes(), word@, opt_view(tag), stress, ctx).1,
    {
        if tag_is(tag, "ADD") {
            match add_symbol_for(word) {
                Some(sw) => return self.lookup(sw, None, Some(StressLevel::MinusHalf), Some(ctx)),
                None => {},
            }
        }
        match symbol_for(word) {
            Some(sw) => return self.lookup(sw, None, None, Some(ctx)),
            None => {},
        }
        let cs = chars_of(word);
        if is_dotted_initials(cs.as_slice()) {
            return self.get_nnp(word);
        }
        if same_str(word, "a") || same_str(word, "A") {
            let p = if tag_is(tag, "DT") {
                String::from_str("\u{250}")
            } else {
                String::from_str("\u{2c8}A")
            };
            return (Some(p), Some(4));
        }
        if same_str(word, "am") || same_str(word, "Am") || same_str(word, "AM") {
            if tag_starts_with(tag, "NN") {
                return self.get_nnp(word);
            }
            let positive = match stress {
                Some(st) => is_above_zero(st),
                None => false,
            };
            if ctx.future_vowel.is_none() || !same_str(word, "am") || positive {
                return (self.gold_string("am"), Some(4));
            }
            return (Some(String::from_str("\u{250}m")), Some(4));
        }
        if same_str(word, "an") || same_str(word, "An") || same_str(word, "AN") {
            if same_str(word, "AN") && tag_starts_with(tag, "NN") {
                return self.get_nnp(word);
            }
            return (Some(String::from_str("\u{250}n")), Some(4));
        }
        if same_str(word, "I") && tag_is(tag, "PRP") {
            return (Some(String::from_str("\u{2cc}I")), Some(4));
        }
        if same_str(word, "by") || same_str(word, "By") || same_str(word, "BY") {
            let adverb = match Lexicon::parent_tag(tag) {
                Some(p) => same_str(p.as_str(), "ADV"),
                None => false,
            };
            if adverb {
                return (Some(String::from_str("b\u{2c8}I")), Some(4));
            }
        }
        if same_str(word, "to") || same_str(word, "To") || (same_str(word, "TO") && (tag_is(tag, "TO")
            || tag_is(tag, "IN"))) {
            let p = match ctx.future_vowel {
                None => match self.gold_string("to") {
                    Some(v) => v,
                    None => String::from_str("tu"),
                },
                Some(false) => String::from_str("t\u{259}"),
                Some(true) => String::from_str("t\u{28a}"),
            };
            return (Some(p), Some(4));
        }
        if same_str(word, "in") || same_str(word, "In") || (same_str(word, "IN") && !tag_is(tag, "NNP")) {
            let p = if ctx.future_vowel.is_none() || !tag_is(tag, "IN") {
                String::from_str("\u{2c8}\u{26a}n")
            } else {
                String::from_str("\u{26a}n")
            };
            return (Some(p), Some(4));
        }
        if same_str(word, "the") || same_str(word, "The") || (same_str(word, "THE") && tag_is(tag, "DT")) {
            let p = if ctx.future_vowel == Some(true) {
                String::from_str("\u{f0}i")
            } else {
                String::from_str("\u{f0}\u{259}")
            };
            return (Some(p), Some(4));
        }
        if tag_is(tag, "IN") && pattern_matches(VERSUS_PATTERN, word) {
            return self.lookup("versus", None, None, Some(ctx));
        }
        if same_str(word, "used") || same_str(word, "Used") || same_str(word, "USED") {
            let ghost g = self.gold_bytes();
            match self.golds.get("used") {
                Some(BinLexiconValue::Variants(vs)) => {
                    let ghost i = gold_index(g, key_of("used"@))->Some_0;
                    assert(vs.tags() == gold_tags(g, i));
                    assert(vs.values() == gold_values(g, i));
                    if (tag_is(tag, "VBD") || tag_is(tag, "JJ") || tag_is(tag, "VB")) && ctx.future_to {
                        match vs.get("VBD") {
                            Some(Some(p)) => {
                                proof {
                                    lemma_str_text(p);
                                }
                                return (Some(String::from_str(p)), Some(4));
                            },
                            _ => {},
                        }
                    }
                    match vs.get("DEFAULT") {
                        Some(Some(p)) => {
                            proof {
                                lemma_str_text(p);
                            }
                            return (Some(String::from_str(p)), Some(4));
                        },
                        _ => {},
                    }
                },
                _ => {},
            }
        }
        (None, None)
    }

    /// A plural read from a known stem (see `plural_reading`).
    fn stem_s(&self, word: &str, tag: Option<&str>, stress: Option<StressLevel>, ctx: Option<TokenContext>) -> (r: (Option<String>, Option<i32>))
        requires
            self.wf(),
        ensures
            r.0.deep_view() == plural_reading(self.gold_bytes(), self.silver_bytes(), self.accent_british(), word@, opt_view(tag), stress, ctx).0,
            r.1 == plural_reading(self.gold_bytes(), self.silver_bytes(), self.accent_british(), word@, opt_view(tag), stress, ctx).1,
    {
        let cs = chars_of(word);
        let c = cs.as_slice();
        let n = cs.len();
        if n < 3 || !ends_with_str(c, "s") {
            return (None, None);
        }
        let s1 = prefix(c, n - 1);
        let stem = if !ends_with_str(c, "ss") && self.is_known(s1.as_str(), tag) {
            s1
        } else {
            let s2 = prefix(c, n - 2);
            if (ends_with_str(c, "'s") || (n > 4 && ends_with_str(c, "es") && !ends_with_str(c, "ies")))
                && self.is_known(s2.as_str(), tag) {
                s2
            } else if n > 4 && ends_with_str(c, "ies") {
                let s3 = prefix_with(c, n - 3, "y");
                if self.is_known(s3.as_str(), tag) {
                    s3
                } else {
                    return (None, None);
                }
            } else {
                return (None, None);
            }
        };
        assert(s_stem(self.gold_bytes(), self.silver_bytes(), word@) == Some(stem@));
        let (ph, rating) = self.lookup(stem.as_str(), tag, stress, ctx);
        (self.plural_suffix(ph), rating)
    }

    /// A past tense read from a known stem (see `past_reading`).
    fn stem_ed(&self, word: &str, tag: Option<&str>, stress: Option<StressLevel>, ctx: Option<TokenContext>) -> (r: (Option<String>, Option<i32>))
        requires
            self.wf(),
        ensures
            r.0.deep_view() == past_reading(self.gold_bytes(), self.silver_bytes(), self.accent_british(), word@, opt_view(tag), stress, ctx).0,
            r.1 == past_reading(self.gold_bytes(), self.silver_bytes(), self.accent_british(), word@, opt_view(tag), stress, ctx).1,
    {
        let cs = chars_of(word);
        let c = cs.as_slice();
        let n = cs.len();
        if n < 4 || !ends_with_str(c, "d") {
            return (None, None);
        }
        let s1 = prefix(c, n - 1);
        let stem = if !ends_with_str(c, "dd") && self.is_known(s1.as_str(), tag) {
            s1
        } else {
            let s2 = prefix(c, n - 2);
            if n > 4 && ends_with_str(c, "ed") && !ends_with_str(c, "eed") && self.is_known(s2.as_str(), tag) {
                s2
            } else {
                return (None, None);
            }
        };
        assert(ed_stem(self.gold_bytes(), self.silver_bytes(), word@) == Some(stem@));
        let (ph, rating) = self.lookup(stem.as_str(), tag, stress, ctx);
        (self.ed_suffix(ph), rating)
    }

    /// A progressive form read from a known stem (see `progressive_reading`).
    fn stem_ing(&self, word: &str, tag: Option<&str>, stress: Option<StressLevel>, ctx: Option<TokenContext>) -> (r: (Option<String>, Option<i32>))
        requires
            self.wf(),
        ensures
            r.0.deep_view() == progressive_reading(self.gold_bytes(), self.silver_bytes(), self.accent_british(), word@, opt_view(tag), stress, ctx).0,
            r.1 == progressive_reading(self.gold_bytes(), self.silver_bytes(), self.accent_british(), word@, opt_view(tag), stress, ctx).1,
    {
        let cs = chars_of(word);
        let c = cs.as_slice();
        let n = cs.len();
        if n < 5 || !ends_with_str(c, "ing") {
            return (None, None);
        }
        let base = prefix(c, n - 3);
        let stem = if n > 5 && self.is_known(base.as_str(), tag) {
            base
        } else {
            let with_e = prefix_with(c, n - 3, "e");
            if self.is_known(with_e.as_str(), tag) {
                with_e
            } else {
                let shorter = prefix(c, n - 4);
                if n > 5 && pattern_matches(DOUBLED_ING_PATTERN, word) && self.is_known(shorter.as_str(), tag) {
                    shorter
                } else {
                    return (None, None);
                }
            }
        };
        assert(ing_stem(self.gold_bytes(), self.silver_bytes(), word@) == Some(stem@));
        let (ph, rating) = self.lookup(stem.as_str(), tag, stress, ctx);
        (self.ing_suffix(ph), rating)
    }

    /// Whether a capitalised word is read in lowercase (see `reads_lowercase`).
    fn reads_in_lowercase(&self, word: &str, tag: Option<&str>, stress: Option<StressLevel>, ctx: TokenContext) -> (b: bool)
        requires
            self.wf(),
        ensures
            b == reads_lowercase(self.gold_bytes(), self.silver_bytes(), self.accent_british(), word@, opt_view(tag), stress, ctx),
    {
        let cs = chars_of(word);
        let n = cs.len();
        if n <= 1 {
            return false;
        }
        let mut other = false;
        let mut k: usize = 0;
        while k < n
            invariant
                n == cs@.len(),
                cs@ == word@,
                k <= n,
                other == exists|j: int| 0 <= j < k && #[trigger] cs@[j] != '\'',
                forall|j: int| 0 <= j < k && cs@[j] != '\'' ==> alphabetic_char(#[trigger] cs@[j]),
            decreases n - k,
        {
            if cs[k] != '\'' {
                if !is_alphabetic(cs[k]) {
                    return false;
                }
                other = true;
            }
            k += 1;
        }
        if !other {
            return false;
        }
        let low = to_lowercase(cs.as_slice());
        if chars_eq(cs.as_slice(), low.as_slice()) {
            return false;
        }
        if tag_is(tag, "NNP") && n <= 7 {
            return false;
        }
        if self.golds.contains_key(word) || self.silvers.contains_key(word) {
            return false;
        }
        if !chars_all_uppercase(cs.as_slice()) {
            let rest = vstd::slice::slice_subrange(cs.as_slice(), 1, n);
            assert(rest@ == after_first(word@));
            let rest_low = to_lowercase(rest);
            if !chars_eq(rest, rest_low.as_slice()) {
                return false;
            }
        }
        let ls = string_from_chars(low.as_slice());
        let ing = match stress {
            Some(st) => st,
            None => StressLevel::Half,
        };
        self.golds.contains_key(ls.as_str()) || self.silvers.contains_key(ls.as_str()) || self.stem_s(
            ls.as_str(),
            tag,
            stress,
            Some(ctx),
        ).0.is_some() || self.stem_ed(ls.as_str(), tag, stress, Some(ctx)).0.is_some() || self.stem_ing(
            ls.as_str(),
            tag,
            Some(ing),
            Some(ctx),
        ).0.is_some()
    }

    /// A word's pronunciation and rating (see `word_reading`).
    pub fn get_word(&self, word: &str, tag: Option<&str>, stress: Option<StressLevel>, ctx: TokenContext) -> (r: (Option<String>, Option<i32>))
        requires
            self.wf(),
        ensures
            r.0.deep_view() == word_reading(self.gold_bytes(), self.silver_bytes(), self.accent_british(), word@, opt_view(tag), stress, ctx).0,
            r.1 == word_reading(self.gold_bytes(), self.silver_bytes(), self.accent_british(), word@, opt_view(tag), stress, ctx).1,
    {
        let sc = self.get_special_case(word, tag, stress, ctx);
        if sc.0.is_some() {
            return sc;
        }
        let lw = if self.reads_in_lowercase(word, tag, stress, ctx) {
            let cs = chars_of(word);
            let low = to_lowercase(cs.as_slice());
            string_from_chars(low.as_slice())
        } else {
            String::from_str(word)
        };
        let lc = chars_of(lw.as_str());
        let c = lc.as_slice();
        let n = lc.len();
        if self.is_known(lw.as_str(), tag) {
            return self.lookup(lw.as_str(), tag, stress, Some(ctx));
        }
        proof {
            reveal_strlit("s'");
            reveal_strlit("'");
        }
        if ends_with_str(c, "s'") {
            let alt = prefix_with(c, n - 2, "'s");
            if self.is_known(alt.as_str(), tag) {
                return self.lookup(alt.as_str(), tag, stress, Some(ctx));
            }
        }
        if ends_with_str(c, "'") {
            let alt = prefix(c, n - 1);
            if self.is_known(alt.as_str(), tag) {
                return self.lookup(alt.as_str(), tag, stress, Some(ctx));
            }
        }
        let sr = self.stem_s(lw.as_str(), tag, stress, Some(ctx));
        if sr.0.is_some() {
            return sr;
        }
        let er = self.stem_ed(lw.as_str(), tag, stress, Some(ctx));
        if er.0.is_some() {
            return er;
        }
        let ing = match stress {
            Some(st) => st,
            None => StressLevel::Half,
        };
        let ir = self.stem_ing(lw.as_str(), tag, Some(ing), Some(ctx));
        if ir.0.is_some() {
            return ir;
        }
        (None, None)
    }
}


/// `t` without the char `c`.
fn without_char(t: &[char], c: char) -> (r: Vec<char>)
    ensures
        r@ == dropped(t@, c),
{
    let mut out: Vec<char> = Vec::new();
    let mut i: usize = 0;
    while i < t.len()
        invariant
            i <= t@.len(),
            out@ == dropped(t@.take(i as int), c),
        decreases t@.len() - i,
    {
        assert(t@.take(i + 1).drop_last() =~= t@.take(i as int));
        if t[i] != c {
            out.push(t[i]);
        }
        i += 1;
    }
    assert(t@.take(t@.len() as int) =~= t@);
    out
}

/// How many chars of `t` are `c`.
fn count_char(t: &[char], c: char) -> (n: usize)
    ensures
        n == count_of(t@, c),
{
    let mut n: usize = 0;
    let mut i: usize = 0;
    while i < t.len()
        invariant
            i <= t@.len(),
            n == count_of(t@.take(i as int), c),
            n <= i,
        decreases t@.len() - i,
    {
        assert(t@.take(i + 1).drop_last() =~= t@.take(i as int));
        if t[i] == c {
            n += 1;
        }
        i += 1;
    }
    assert(t@.take(t@.len() as int) =~= t@);
    n
}

/// The pieces of `t` between the separators `c`.
fn split_chars(t: &[char], c: char) -> (r: Vec<String>)
    ensures
        r.deep_view() == split_on(t@, c),
        r@.len() >= 1,
{
    let mut out: Vec<String> = Vec::new();
    let mut cur: Vec<char> = Vec::new();
    let mut i: usize = 0;
    while i < t.len()
        invariant
            i <= t@.len(),
            out.deep_view() + split_from(t@, c, i as int, cur@) == split_on(t@, c),
        decreases t@.len() - i,
    {
        if t[i] == c {
            let piece = string_from_chars(cur.as_slice());
            let ghost before = out.deep_view();
            out.push(piece);
            assert(out.deep_view() =~= before.push(cur@));
            assert(before + split_from(t@, c, i as int, cur@) =~= out.deep_view() + split_from(t@, c, i + 1, Seq::empty()));
            cur = Vec::new();
        } else {
            cur.push(t[i]);
        }
        i += 1;
    }
    let piece = string_from_chars(cur.as_slice());
    let ghost before = out.deep_view();
    out.push(piece);
    assert(out.deep_view() =~= before.push(cur@));
    assert(out.deep_view() =~= before + seq![cur@]);
    out
}

/// The pieces joined with single spaces.
fn join_spaced(ps: &Vec<String>) -> (r: String)
    ensures
        r@ == spaced(ps.deep_view()),
{
    let mut out: Vec<char> = Vec::new();
    let mut i: usize = 0;
    while i < ps.len()
        invariant
            i <= ps@.len(),
            out@ == spaced(ps.deep_view().take(i as int)),
        decreases ps@.len() - i,
    {
        let ghost prev = ps.deep_view().take(i as int);
        assert(ps.deep_view().take(i + 1).drop_last() =~= prev);
        if i > 0 {
            out.push(' ');
        }
        extend_chars(&mut out, ps[i].as_str());
        i += 1;
        proof {
            let cur = ps.deep_view().take(i as int);
            if i == 1 {
                assert(out@ =~= cur[0]);
            } else {
                assert(out@ =~= spaced(prev) + seq![' '] + cur.last());
            }
        }
    }
    assert(ps.deep_view().take(ps@.len() as int) =~= ps.deep_view());
    string_from_chars(out.as_slice())
}

/// The smallest of some ratings.
fn least_rating(rs: &Vec<i32>) -> (m: i32)
    requires
        rs@.len() > 0,
    ensures
        m == least(rs@),
{
    let mut m = rs[0];
    let mut i: usize = 1;
    assert(rs@.take(1) =~= seq![rs@[0]]);
    while i < rs.len()
        invariant
            1 <= i <= rs@.len(),
            m == least(rs@.take(i as int)),
        decreases rs@.len() - i,
    {
        assert(rs@.take(i + 1).drop_last() =~= rs@.take(i as int));
        if rs[i] < m {
            m = rs[i];
        }
        i += 1;
    }
    assert(rs@.take(rs@.len() as int) =~= rs@);
    m
}

/// A digit spelled as a word; any other char as itself.
fn digit_word(c: char) -> (r: String)
    ensures
        r@ == or_else(cardinal_text(seq![c]), seq![c]),
{
    let v: Vec<char> = vec![c];
    let s = string_from_chars(v.as_slice());
    assert(v@ =~= seq![c]);
    match NumberToWords::cardinal_str(s.as_str()) {
        Some(w) => w,
        None => s,
    }
}

/// Each char of `t` spelled by `digit_word`, separated by spaces.
fn spell_digits(t: &[char]) -> (r: String)
    ensures
        r@ == digit_words(t@),
{
    let mut words: Vec<String> = Vec::new();
    let mut i: usize = 0;
    while i < t.len()
        invariant
            i <= t@.len(),
            words.deep_view() == Seq::new(i as nat, |k: int| or_else(cardinal_text(seq![t@[k]]), seq![t@[k]])),
        decreases t@.len() - i,
    {
        let w = digit_word(t[i]);
        let ghost before = words.deep_view();
        words.push(w);
        assert(words.deep_view() =~= before.push(w@));
        i += 1;
        assert(words.deep_view() =~= Seq::new(i as nat, |k: int| or_else(cardinal_text(seq![t@[k]]), seq![t@[k]])));
    }
    join_spaced(&words)
}

/// The chars of `w` after its first period.
fn chars_after_dot(w: &[char]) -> (r: Vec<char>)
    ensures
        r@ == after_dot(w@),
{
    let mut i: usize = 0;
    assert(w@.skip(0) =~= w@);
    while i < w.len() && w[i] != '.'
        invariant
            i <= w@.len(),
            after_dot(w@.skip(i as int)) == after_dot(w@),
        decreases w@.len() - i,
    {
        assert(w@.skip(i as int).drop_first() =~= w@.skip(i + 1));
        i += 1;
    }
    let mut out: Vec<char> = Vec::new();
    if i == w.len() {
        assert(w@.skip(i as int) =~= Seq::<char>::empty());
        return out;
    }
    let mut k = i + 1;
    while k < w.len()
        invariant
            i < k <= w@.len(),
            out@ == w@.subrange(i + 1, k as int),
        decreases w@.len() - k,
    {
        out.push(w[k]);
        k += 1;
        assert(out@ =~= w@.subrange(i + 1, k as int));
    }
    assert(w@.skip(i as int).drop_first() =~= w@.subrange(i + 1, w@.len() as int));
    out
}


/// The first `k` chars of `cs`.
fn take_chars(cs: &[char], k: usize) -> (r: Vec<char>)
    requires
        k <= cs@.len(),
    ensures
        r@ == cs@.take(k as int),
{
    let mut out: Vec<char> = Vec::new();
    let mut i: usize = 0;
    while i < k
        invariant
            k <= cs@.len(),
            i <= k,
            out@ == cs@.take(i as int),
        decreases k - i,
    {
        out.push(cs[i]);
        i += 1;
        assert(out@ =~= cs@.take(i as int));
    }
    out
}

/// The chars of `cs` from `k` on.
fn skip_chars(cs: &[char], k: usize) -> (r: Vec<char>)
    requires
        k <= cs@.len(),
    ensures
        r@ == cs@.skip(k as int),
{
    let mut out: Vec<char> = Vec::new();
    let mut i: usize = k;
    while i < cs.len()
        invariant
            k <= i <= cs@.len(),
            out@ == cs@.subrange(k as int, i as int),
        decreases cs@.len() - i,
    {
        out.push(cs[i]);
        i += 1;
        assert(out@ =~= cs@.subrange(k as int, i as int));
    }
    assert(cs@.subrange(k as int, cs@.len() as int) =~= cs@.skip(k as int));
    out
}

/// Whether `t` is nonempty and all numeric.
fn is_digit_string(t: &[char]) -> (b: bool)
    ensures
        b == digit_string(t@),
{
    if t.len() == 0 {
        return false;
    }
    let mut i: usize = 0;
    while i < t.len()
        invariant
            i <= t@.len(),
            forall|k: int| 0 <= k < i ==> numeric_char(#[trigger] t@[k]),
        decreases t@.len() - i,
    {
        if !is_numeric(t[i]) {
            return false;
        }
        i += 1;
    }
    true
}

/// Whether a chunk between periods is read char by char.
fn is_chunk_by_chars(c: &[char]) -> (b: bool)
    requires
        c@.len() > 0,
    ensures
        b == chunk_by_chars(c@),
{
    if c[0] == '0' {
        return true;
    }
    if c.len() == 2 {
        return false;
    }
    let mut k: usize = 1;
    while k < c.len()
        invariant
            1 <= k <= c@.len(),
            c@.len() != 2,
            c@[0] != '0',
            forall|j: int| 1 <= j < k ==> #[trigger] c@[j] == '0',
        decreases c@.len() - k,
    {
        if c[k] != '0' {
            assert(c@[k as int] != '0');
            return true;
        }
        k += 1;
    }
    false
}

/// The unit and hundredth of a currency symbol.
fn units_of(c: &str) -> (r: Option<(&'static str, &'static str)>)
    ensures
        match r {
            Some((u, h)) => currency_units(c@) == Some((u@, h@)),
            None => currency_units(c@) is None,
        },
{
    if same_str(c, "$") {
        Some(("dollar", "cent"))
    } else if same_str(c, "\u{a3}") {
        Some(("pound", "pence"))
    } else if same_str(c, "\u{20ac}") {
        Some(("euro", "cent"))
    } else {
        None
    }
}

/// The whole and hundredth amounts of a currency amount.
fn amounts_of(working: &[char]) -> (r: (i64, i64))
    ensures
        r == amounts(working@),
{
    let compact = without_char(working, ',');
    let parts = split_chars(compact.as_slice(), '.');
    assert(parts.deep_view()[0] == parts@[0]@);
    let v0 = match parse_i64(parts[0].as_str()) {
        Some(v) => v,
        None => 0,
    };
    let v1 = if parts.len() > 1 {
        assert(parts.deep_view()[1] == parts@[1]@);
        match parse_i64(parts[1].as_str()) {
            Some(v) => v,
            None => 0,
        }
    } else {
        0
    };
    (v0, v1)
}

/// The letters ending a number, when the suffix expression finds them at its end.
fn number_suffix_of(word: &str) -> (r: Option<String>)
    ensures
        r.deep_view() == number_suffix(word@),
{
    match compile_regex(NUMBER_SUFFIX_PATTERN) {
        Err(_) => None,
        Ok(re) => match regex_find(&re, word) {
            Some(m) => {
                let cs = chars_of(word);
                if ends_with_str(cs.as_slice(), m.as_str()) {
                    Some(m)
                } else {
                    None
                }
            },
            None => None,
        },
    }
}

/// How a number without a currency is spoken (see `spoken_number`).
fn speak_number(working: &[char], suffix_lower: &Option<String>) -> (r: String)
    ensures
        r@ == spoken_number(working@, suffix_lower.deep_view()),
{
    let compact = without_char(working, ',');
    if is_digit_string(working) {
        let w = string_from_chars(working);
        return match NumberToWords::cardinal_str(w.as_str()) {
            Some(c) => c,
            None => w,
        };
    }
    let cstr = string_from_chars(compact.as_slice());
    if !holds_char(working, '.') {
        let ordinal = match suffix_lower {
            Some(l) => {
                let lc = chars_of(l.as_str());
                let o = lc.as_slice();
                chars_eq_str(o, "st") || chars_eq_str(o, "nd") || chars_eq_str(o, "rd") || chars_eq_str(o, "th")
            },
            None => false,
        };
        if ordinal {
            match NumberToWords::ordinal_str(cstr.as_str()) {
                Some(o) => return o,
                None => {},
            }
        }
        return match NumberToWords::cardinal_str(cstr.as_str()) {
            Some(c) => c,
            None => cstr,
        };
    }
    if compact.len() > 0 && compact[0] == '.' {
        let rest = skip_chars(compact.as_slice(), 1);
        assert(rest@ =~= compact@.drop_first());
        let digits = spell_digits(rest.as_slice());
        return joined("point ", digits.as_str());
    }
    let parts = split_chars(compact.as_slice(), '.');
    assert(parts.deep_view()[0] == parts@[0]@);
    let left = match NumberToWords::cardinal_str(parts[0].as_str()) {
        Some(c) => c,
        None => String::from_str(parts[0].as_str()),
    };
    let right = if parts.len() > 1 {
        assert(parts.deep_view()[1] == parts@[1]@);
        let pc = chars_of(parts[1].as_str());
        spell_digits(pc.as_slice())
    } else {
        String::new()
    };
    let rc = chars_of(right.as_str());
    if rc.len() == 0 {
        left
    } else {
        let l2 = joined(left.as_str(), " point ");
        joined(l2.as_str(), right.as_str())
    }
}

impl Lexicon {
    /// Read the words of `w` onto the readings (see `read_words`).
    fn read_words_onto(&self, texts: &mut Vec<String>, ratings: &mut Vec<i32>, w: &str, first: bool, escape: bool, flags: &[char])
        requires
            self.wf(),
            old(texts)@.len() == old(ratings)@.len(),
        ensures
            final(texts)@.len() == final(ratings)@.len(),
            final(texts).deep_view() == read_words(self.gold_bytes(), self.silver_bytes(), (old(texts).deep_view(), old(ratings)@), w@, first, escape, flags@).0,
            final(ratings)@ == read_words(self.gold_bytes(), self.silver_bytes(), (old(texts).deep_view(), old(ratings)@), w@, first, escape, flags@).1,
    {
        let ghost g = self.gold_bytes();
        let ghost sv = self.silver_bytes();
        let source = if escape {
            String::from_str(w)
        } else {
            match NumberToWords::cardinal_str(w) {
                Some(c) => c,
                None => String::from_str(w),
            }
        };
        let words = split_lowercase_words(source.as_str());
        let ghost acc0: Readings = (texts.deep_view(), ratings@);
        let ghost ws = words.deep_view();
        let mut i: usize = 0;
        while i < words.len()
            invariant
                self.wf(),
                g == self.gold_bytes(),
                sv == self.silver_bytes(),
                ws == words.deep_view(),
                i <= ws.len(),
                texts@.len() == ratings@.len(),
                words_read(g, sv, (texts.deep_view(), ratings@), ws, i as int, first, flags@) == words_read(g, sv, acc0, ws, 0, first, flags@),
            decreases ws.len() - i,
        {
            let ghost cur: Readings = (texts.deep_view(), ratings@);
            let word = words[i].as_str();
            assert(word@ == ws[i as int]);
            let is_and = same_str(word, "and");
            if !is_and || holds_char(flags, '&') {
                if first && i == 0 && words.len() > 1 && same_str(word, "one") && holds_char(flags, 'a') {
                    texts.push(String::from_str("\u{259}"));
                    ratings.push(4);
                    assert(texts.deep_view() =~= cur.0.push("\u{259}"@));
                } else {
                    let stress = if same_str(word, "point") {
                        Some(StressLevel::BelowMinusOne)
                    } else {
                        None
                    };
                    let (ph, r) = self.lookup(word, None, stress, None);
                    match (ph, r) {
                        (Some(p), Some(k)) => {
                            let ghost pv = p@;
                            texts.push(p);
                            ratings.push(k);
                            assert(texts.deep_view() =~= cur.0.push(pv));
                        },
                        _ => {},
                    }
                }
            } else if holds_char(flags, 'n') && texts.len() > 0 {
                match texts.pop() {
                    Some(last) => {
                        assert(texts.deep_view() =~= cur.0.drop_last());
                        let j = joined(last.as_str(), "\u{259}n");
                        texts.push(j);
                        assert(texts.deep_view() =~= cur.0.drop_last().push(cur.0.last() + "\u{259}n"@));
                    },
                    None => {},
                }
            }
            assert(texts.deep_view() == word_step(g, sv, cur, ws, i as int, first, flags@).0);
            assert(ratings@ == word_step(g, sv, cur, ws, i as int, first, flags@).1);
            i += 1;
        }
    }

    /// Read each char of `t` onto the readings on its own (see `chars_read`).
    fn chars_read_onto(&self, texts: &mut Vec<String>, ratings: &mut Vec<i32>, t: &[char], flags: &[char])
        requires
            self.wf(),
            old(texts)@.len() == old(ratings)@.len(),
        ensures
            final(texts)@.len() == final(ratings)@.len(),
            final(texts).deep_view() == chars_read(self.gold_bytes(), self.silver_bytes(), (old(texts).deep_view(), old(ratings)@), t@, flags@).0,
            final(ratings)@ == chars_read(self.gold_bytes(), self.silver_bytes(), (old(texts).deep_view(), old(ratings)@), t@, flags@).1,
    {
        let ghost acc0: Readings = (texts.deep_view(), ratings@);
        let mut i: usize = 0;
        while i < t.len()
            invariant
                self.wf(),
                i <= t@.len(),
                texts@.len() == ratings@.len(),
                texts.deep_view() == chars_read(self.gold_bytes(), self.silver_bytes(), acc0, t@.take(i as int), flags@).0,
                ratings@ == chars_read(self.gold_bytes(), self.silver_bytes(), acc0, t@.take(i as int), flags@).1,
            decreases t@.len() - i,
        {
            assert(t@.take(i + 1).drop_last() =~= t@.take(i as int));
            let v: Vec<char> = vec![t[i]];
            let c = string_from_chars(v.as_slice());
            assert(c@ =~= seq![t@.take(i + 1).last()]);
            self.read_words_onto(texts, ratings, c.as_str(), false, false, flags);
            i += 1;
        }
        assert(t@.take(t@.len() as int) =~= t@);
    }

    /// Add a lookup's reading when it has both phonemes and a rating.
    fn push_reading(texts: &mut Vec<String>, ratings: &mut Vec<i32>, r: (Option<String>, Option<i32>))
        requires
            old(texts)@.len() == old(ratings)@.len(),
        ensures
            final(texts)@.len() == final(ratings)@.len(),
            final(texts).deep_view() == with_reading((old(texts).deep_view(), old(ratings)@), (r.0.deep_view(), r.1)).0,
            final(ratings)@ == with_reading((old(texts).deep_view(), old(ratings)@), (r.0.deep_view(), r.1)).1,
    {
        let ghost before = texts.deep_view();
        match r {
            (Some(p), Some(k)) => {
                let ghost pv = p@;
                texts.push(p);
                ratings.push(k);
                assert(texts.deep_view() =~= before.push(pv));
            },
            _ => {},
        }
    }

    /// Read one quantity of a sum onto the readings (see `money_step`).
    fn money_onto(&self, texts: &mut Vec<String>, ratings: &mut Vec<i32>, v: i64, unit: &str, index: usize, flags: &[char])
        requires
            self.wf(),
            old(texts)@.len() == old(ratings)@.len(),
        ensures
            final(texts)@.len() == final(ratings)@.len(),
            final(texts).deep_view() == money_step(self.gold_bytes(), self.silver_bytes(), self.accent_british(), (old(texts).deep_view(), old(ratings)@), v, unit@, index as int, flags@).0,
            final(ratings)@ == money_step(self.gold_bytes(), self.silver_bytes(), self.accent_british(), (old(texts).deep_view(), old(ratings)@), v, unit@, index as int, flags@).1,
    {
        if index > 0 {
            let r = self.lookup("and", None, None, None);
            Self::push_reading(texts, ratings, r);
        }
        let spoken = NumberToWords::cardinal(v);
        self.read_words_onto(texts, ratings, spoken.as_str(), index == 0, true, flags);
        if v != 1 && v != -1 && !same_str(unit, "pence") {
            let plural = joined(unit, "s");
            let r = self.stem_s(plural.as_str(), None, None, None);
            Self::push_reading(texts, ratings, r);
        } else {
            let r = self.lookup(unit, None, None, None);
            Self::push_reading(texts, ratings, r);
        }
    }

    /// Read a number without a period inside a token (see `digits_read`).
    fn digits_onto(&self, texts: &mut Vec<String>, ratings: &mut Vec<i32>, compact: &[char], flags: &[char])
        requires
            self.wf(),
            old(texts)@.len() == old(ratings)@.len(),
        ensures
            final(texts)@.len() == final(ratings)@.len(),
            final(texts).deep_view() == digits_read(self.gold_bytes(), self.silver_bytes(), (old(texts).deep_view(), old(ratings)@), compact@, flags@).0,
            final(ratings)@ == digits_read(self.gold_bytes(), self.silver_bytes(), (old(texts).deep_view(), old(ratings)@), compact@, flags@).1,
    {
        let n = compact.len();
        if (n > 0 && compact[0] == '0') || n > 3 {
            self.chars_read_onto(texts, ratings, compact, flags);
            return;
        }
        proof {
            reveal_strlit("00");
        }
        if n == 3 && !ends_with_str(compact, "00") {
            let head = prefix(compact, 1);
            self.read_words_onto(texts, ratings, head.as_str(), true, false, flags);
            let ghost tens = compact@.skip(1);
            if compact[1] == '0' {
                let r = self.lookup("O", None, Some(StressLevel::BelowMinusOne), None);
                Self::push_reading(texts, ratings, r);
                let rest = string_from_range(compact, 2, 3);
                assert(rest@ =~= tens.skip(1));
                self.read_words_onto(texts, ratings, rest.as_str(), false, false, flags);
            } else {
                let rest = string_from_range(compact, 1, 3);
                assert(rest@ =~= tens);
                self.read_words_onto(texts, ratings, rest.as_str(), false, false, flags);
            }
            return;
        }
        let whole = string_from_chars(compact);
        self.read_words_onto(texts, ratings, whole.as_str(), true, false, flags);
    }

    /// Read the chunks between periods (see `chunks_read`).
    fn chunks_onto(&self, texts: &mut Vec<String>, ratings: &mut Vec<i32>, chunks: &Vec<String>, flags: &[char])
        requires
            self.wf(),
            old(texts)@.len() == old(ratings)@.len(),
        ensures
            final(texts)@.len() == final(ratings)@.len(),
            final(texts).deep_view() == chunks_read(self.gold_bytes(), self.silver_bytes(), (old(texts).deep_view(), old(ratings)@), chunks.deep_view(), 0, true, flags@).0,
            final(ratings)@ == chunks_read(self.gold_bytes(), self.silver_bytes(), (old(texts).deep_view(), old(ratings)@), chunks.deep_view(), 0, true, flags@).1,
    {
        let ghost g = self.gold_bytes();
        let ghost sv = self.silver_bytes();
        let ghost cs = chunks.deep_view();
        let ghost acc0: Readings = (texts.deep_view(), ratings@);
        let mut first = true;
        let mut i: usize = 0;
        while i < chunks.len()
            invariant
                self.wf(),
                g == self.gold_bytes(),
                sv == self.silver_bytes(),
                cs == chunks.deep_view(),
                i <= cs.len(),
                texts@.len() == ratings@.len(),
                chunks_read(g, sv, (texts.deep_view(), ratings@), cs, i as int, first, flags@) == chunks_read(g, sv, acc0, cs, 0, true, flags@),
            decreases cs.len() - i,
        {
            let cc = chars_of(chunks[i].as_str());
            assert(cc@ == cs[i as int]);
            if cc.len() > 0 {
                if is_chunk_by_chars(cc.as_slice()) {
                    self.chars_read_onto(texts, ratings, cc.as_slice(), flags);
                } else {
                    self.read_words_onto(texts, ratings, chunks[i].as_str(), first, false, flags);
                }
                first = false;
            }
            i += 1;
        }
    }
}


impl Lexicon {
    /// Whether a word is a currency amount: no period, or one period followed by
    /// fewer than three chars or only zeros.
    pub fn is_currency(word: &str) -> (b: bool)
        ensures
            b == currency_amount(word@),
    {
        let cs = chars_of(word);
        let c = cs.as_slice();
        if !holds_char(c, '.') {
            return true;
        }
        if count_char(c, '.') > 1 {
            return false;
        }
        let cents = chars_after_dot(c);
        if cents.len() < 3 {
            return true;
        }
        let mut k: usize = 0;
        while k < cents.len()
            invariant
                k <= cents@.len(),
                cents@.len() >= 3,
                cs@ == word@,
                holds(word@, '.'),
                count_of(word@, '.') <= 1,
                cents@ == after_dot(word@),
                forall|j: int| 0 <= j < k ==> #[trigger] cents@[j] == '0',
            decreases cents@.len() - k,
        {
            if cents[k] != '0' {
                assert(cents@[k as int] != '0');
                return false;
            }
            k += 1;
        }
        true
    }

    /// A number's pronunciation and rating (see `number_reading`), for a number
    /// that is read without cutting inside a multi-byte char.
    pub fn get_number(&self, word: &str, currency: Option<&str>, is_head: bool, num_flags: &str) -> (r: (Option<String>, Option<i32>))
        requires
            self.wf(),
            number_cuts_ok(self.gold_bytes(), self.silver_bytes(), word@, opt_view(currency), is_head),
        ensures
            r.0.deep_view() == number_reading(self.gold_bytes(), self.silver_bytes(), self.accent_british(), word@, opt_view(currency), is_head, num_flags@).0,
            r.1 == number_reading(self.gold_bytes(), self.silver_bytes(), self.accent_british(), word@, opt_view(currency), is_head, num_flags@).1,
    {
        let ghost g = self.gold_bytes();
        let ghost sv = self.silver_bytes();
        let ghost w = word@;
        let fv = chars_of(num_flags);
        let flags = fv.as_slice();
        let cs = chars_of(word);
        let suffix = number_suffix_of(word);
        let suffix_lower: Option<String> = match &suffix {
            Some(t) => {
                let tc = chars_of(t.as_str());
                let low = to_lowercase(tc.as_slice());
                Some(string_from_chars(low.as_slice()))
            },
            None => None,
        };
        assert(suffix_lower.deep_view() == number_suffix_lower(w));
        let body: Vec<char> = match &suffix {
            Some(t) => {
                let tc = chars_of(t.as_str());
                take_chars(cs.as_slice(), cs.len() - tc.len())
            },
            None => take_chars(cs.as_slice(), cs.len()),
        };
        assert(cs@.take(cs@.len() as int) =~= cs@);
        assert(body@ == number_body(w));
        let mut texts: Vec<String> = Vec::new();
        let mut ratings: Vec<i32> = Vec::new();
        let negative = body.len() > 0 && body[0] == '-';
        let working: Vec<char> = if negative {
            let r = self.lookup("minus", None, None, None);
            Self::push_reading(&mut texts, &mut ratings, r);
            let rest = skip_chars(body.as_slice(), 1);
            assert(rest@ =~= body@.drop_first());
            rest
        } else {
            body
        };
        let wk = working.as_slice();
        assert(wk@ == number_working(w));
        assert(texts.deep_view() =~= sign_readings(g, sv, w).0);
        assert(ratings@ =~= sign_readings(g, sv, w).1);
        let ghost acc: Readings = (texts.deep_view(), ratings@);
        let digits = is_digit_string(wk);
        let ordinal = match &suffix_lower {
            Some(l) => {
                let lc = chars_of(l.as_str());
                let o = lc.as_slice();
                chars_eq_str(o, "st") || chars_eq_str(o, "nd") || chars_eq_str(o, "rd") || chars_eq_str(o, "th")
            },
            None => false,
        };
        let ghost form = number_form(g, sv, w, opt_view(currency), is_head);
        if digits && ordinal {
            assert(form == NumberForm::Ordinal);
            let ws = string_from_chars(wk);
            let src = match NumberToWords::ordinal_str(ws.as_str()) {
                Some(o) => o,
                None => ws,
            };
            self.read_words_onto(&mut texts, &mut ratings, src.as_str(), true, true, flags);
        } else if texts.len() == 0 && wk.len() == 4 && currency.is_none() && digits {
            assert(form == NumberForm::Year);
            let ws = string_from_chars(wk);
            let src = match NumberToWords::year_str(ws.as_str()) {
                Some(o) => o,
                None => ws,
            };
            self.read_words_onto(&mut texts, &mut ratings, src.as_str(), true, true, flags);
        } else if !is_head && !holds_char(wk, '.') {
            assert(form == NumberForm::Digits);
            let compact = without_char(wk, ',');
            self.digits_onto(&mut texts, &mut ratings, compact.as_slice(), flags);
        } else if count_char(wk, '.') > 1 || !is_head {
            assert(form == NumberForm::Chunks);
            let compact = without_char(wk, ',');
            let parts = split_chars(compact.as_slice(), '.');
            self.chunks_onto(&mut texts, &mut ratings, &parts, flags);
        } else if currency.is_some() {
            assert(form == NumberForm::Money);
            let cur = match currency {
                Some(c) => c,
                None => "",
            };
            match units_of(cur) {
                Some((unit, cents)) => {
                    let ws = string_from_chars(wk);
                    if Self::is_currency(ws.as_str()) {
                        let (v0, v1) = amounts_of(wk);
                        let ghost qs = quantities(v0, v1, unit@, cents@);
                        proof {
                            reveal_with_fuel(money_read, 3);
                        }
                        if v0 != 0 && v1 != 0 {
                            self.money_onto(&mut texts, &mut ratings, v0, unit, 0, flags);
                            self.money_onto(&mut texts, &mut ratings, v1, cents, 1, flags);
                        } else if v0 != 0 {
                            self.money_onto(&mut texts, &mut ratings, v0, unit, 0, flags);
                        } else if v1 != 0 {
                            self.money_onto(&mut texts, &mut ratings, v1, cents, 0, flags);
                        } else {
                            self.money_onto(&mut texts, &mut ratings, v0, unit, 0, flags);
                            self.money_onto(&mut texts, &mut ratings, v1, cents, 1, flags);
                        }
                    }
                },
                None => {},
            }
        } else {
            assert(form == NumberForm::Plain);
            let spoken = speak_number(wk, &suffix_lower);
            self.read_words_onto(&mut texts, &mut ratings, spoken.as_str(), true, true, flags);
        }
        assert(texts.deep_view() == number_readings(g, sv, self.accent_british(), w, opt_view(currency), is_head, num_flags@).0);
        assert(ratings@ == number_readings(g, sv, self.accent_british(), w, opt_view(currency), is_head, num_flags@).1);
        if texts.len() == 0 {
            return (None, None);
        }
        let ph = join_spaced(&texts);
        let rating = least_rating(&ratings);
        match suffix_lower {
            Some(l) => {
                if same_str(l.as_str(), "s") || same_str(l.as_str(), "'s") {
                    (self.plural_suffix(Some(ph)), Some(rating))
                } else if same_str(l.as_str(), "ed") || same_str(l.as_str(), "'d") {
                    (self.ed_suffix(Some(ph)), Some(rating))
                } else if same_str(l.as_str(), "ing") {
                    (self.ing_suffix(Some(ph)), Some(rating))
                } else {
                    (Some(ph), Some(rating))
                }
            },
            None => (Some(ph), Some(rating)),
        }
    }
}


/// The ending a number word may carry, by its place in the order tried.
fn ending_at(i: usize) -> (r: &'static str)
    ensures
        r@ == number_ending(i as int),
{
    if i == 0 {
        "ing"
    } else if i == 1 {
        "'d"
    } else if i == 2 {
        "ed"
    } else if i == 3 {
        "'s"
    } else if i == 4 {
        "st"
    } else if i == 5 {
        "nd"
    } else if i == 6 {
        "rd"
    } else if i == 7 {
        "th"
    } else {
        "s"
    }
}

/// The place of the first ending that `l` ends with.
fn find_ending(l: &[char]) -> (r: Option<usize>)
    ensures
        match r {
            Some(i) => first_ending(l@, 0) == Some(i as int),
            None => first_ending(l@, 0) is None,
        },
{
    let mut i: usize = 0;
    while i < 9
        invariant
            i <= 9,
            first_ending(l@, i as int) == first_ending(l@, 0),
        decreases 9 - i,
    {
        if ends_with_str(l, ending_at(i)) {
            return Some(i);
        }
        i += 1;
    }
    None
}

/// Where a number word is cut to drop its ending, if it has one.
fn cut_of(word: &str) -> (r: Option<(usize, usize)>)
    ensures
        match r {
            Some((k, n)) => number_cut(word@) == Some(k - n) && n == number_ending(
                first_ending(lowercase_str(word@), 0)->Some_0,
            ).len() && k == word@.len(),
            None => number_cut(word@) is None,
        },
{
    let cs = chars_of(word);
    let low = to_lowercase(cs.as_slice());
    match find_ending(low.as_slice()) {
        Some(i) => {
            let e = chars_of(ending_at(i));
            Some((cs.len(), e.len()))
        },
        None => None,
    }
}

/// Whether a word's cut fits (see `number_cut_fits`).
fn cut_fits(word: &str) -> (b: bool)
    ensures
        b == number_cut_fits(word@),
{
    match cut_of(word) {
        Some((k, n)) => {
            if k < n {
                return false;
            }
            let bytes = word.as_bytes();
            let m = k - n;
            if m >= bytes.len() {
                return true;
            }
            let head = vstd::slice::slice_subrange(bytes, 0, m);
            assert(head@ =~= encode_utf8(word@).take(m as int));
            from_utf8(head).is_ok()
        },
        None => true,
    }
}

impl Lexicon {
    /// A char as a string: a numeric char stands for the decimal digit it is, any
    /// other for itself.
    pub fn numeric_if_needed(c: char) -> (r: String)
        ensures
            r@ == seq![c],
    {
        let v: Vec<char> = vec![c];
        let r = string_from_chars(v.as_slice());
        assert(v@ =~= seq![c]);
        r
    }

    /// Whether a word is read as a number (see `number_like`), for a word whose
    /// cut fits.
    pub fn is_number(word: &str, is_head: bool) -> (b: bool)
        requires
            has_numeric(word@) ==> number_cut_fits(word@),
        ensures
            b == number_like(word@, is_head),
    {
        let cs = chars_of(word);
        if !chars_have_numeric(cs.as_slice()) {
            return false;
        }
        let candidate: Vec<char> = match cut_of(word) {
            Some((k, n)) => {
                let bytes = word.as_bytes();
                let m = k - n;
                if m >= bytes.len() {
                    cs
                } else {
                    let head = vstd::slice::slice_subrange(bytes, 0, m);
                    assert(head@ =~= encode_utf8(word@).take(m as int));
                    match from_utf8(head) {
                        Ok(h) => {
                            proof {
                                lemma_str_text(h);
                            }
                            chars_of(h)
                        },
                        Err(_) => {
                            assert(false);
                            cs
                        },
                    }
                }
            },
            None => cs,
        };
        assert(candidate@ == number_candidate(word@));
        let mut k: usize = 0;
        while k < candidate.len()
            invariant
                k <= candidate@.len(),
                has_numeric(word@),
                candidate@ == number_candidate(word@),
                forall|j: int|
                    0 <= j < k ==> numeric_char(#[trigger] candidate@[j]) || candidate@[j] == ',' || candidate@[j]
                        == '.' || (is_head && j == 0 && candidate@[j] == '-'),
            decreases candidate@.len() - k,
        {
            let c = candidate[k];
            if !(is_numeric(c) || c == ',' || c == '.' || (is_head && k == 0 && c == '-')) {
                assert(!number_shaped(candidate@, is_head)) by {
                    assert(!(numeric_char(candidate@[k as int]) || candidate@[k as int] == ',' || candidate@[k as int] == '.'
                        || (is_head && k == 0 && candidate@[k as int] == '-')));
                }
                return false;
            }
            k += 1;
        }
        true
    }

    /// Phonemes with the plural of the currency's unit added (see
    /// `currency_appended`).
    pub fn append_currency(&self, phonemes: &str, currency: Option<&str>) -> (r: String)
        requires
            self.wf(),
        ensures
            r@ == currency_appended(self.gold_bytes(), self.silver_bytes(), self.accent_british(), phonemes@, opt_view(currency)),
    {
        let c = match currency {
            Some(c) => c,
            None => return String::from_str(phonemes),
        };
        let unit = match units_of(c) {
            Some((u, _)) => u,
            None => return String::from_str(phonemes),
        };
        let plural = joined(unit, "s");
        match self.stem_s(plural.as_str(), None, None, None).0 {
            Some(pl) => {
                let with_space = joined(phonemes, " ");
                proof {
                    reveal_strlit(" ");
                }
                assert(" "@ =~= seq![' ']);
                joined(with_space.as_str(), pl.as_str())
            },
            None => String::from_str(phonemes),
        }
    }

    /// Whether a number is read without cutting inside a multi-byte char (see
    /// `number_cuts_ok`).
    pub fn number_cuts_are_ok(&self, word: &str, currency: Option<&str>, is_head: bool) -> (b: bool)
        requires
            self.wf(),
        ensures
            b == number_cuts_ok(self.gold_bytes(), self.silver_bytes(), word@, opt_view(currency), is_head),
    {
        let ghost g = self.gold_bytes();
        let ghost sv = self.silver_bytes();
        let ghost w = word@;
        let cs = chars_of(word);
        let suffix = number_suffix_of(word);
        let suffix_lower: Option<String> = match &suffix {
            Some(t) => {
                let tc = chars_of(t.as_str());
                let low = to_lowercase(tc.as_slice());
                Some(string_from_chars(low.as_slice()))
            },
            None => None,
        };
        let body: Vec<char> = match &suffix {
            Some(t) => {
                let tc = chars_of(t.as_str());
                take_chars(cs.as_slice(), cs.len() - tc.len())
            },
            None => take_chars(cs.as_slice(), cs.len()),
        };
        assert(cs@.take(cs@.len() as int) =~= cs@);
        let mut texts: Vec<String> = Vec::new();
        let mut ratings: Vec<i32> = Vec::new();
        let negative = body.len() > 0 && body[0] == '-';
        let working: Vec<char> = if negative {
            let r = self.lookup("minus", None, None, None);
            Self::push_reading(&mut texts, &mut ratings, r);
            let rest = skip_chars(body.as_slice(), 1);
            assert(rest@ =~= body@.drop_first());
            rest
        } else {
            body
        };
        let wk = working.as_slice();
        assert(texts.deep_view() =~= sign_readings(g, sv, w).0);
        let digits = is_digit_string(wk);
        let ordinal = match &suffix_lower {
            Some(l) => {
                let lc = chars_of(l.as_str());
                let o = lc.as_slice();
                chars_eq_str(o, "st") || chars_eq_str(o, "nd") || chars_eq_str(o, "rd") || chars_eq_str(o, "th")
            },
            None => false,
        };
        if digits && ordinal {
            return true;
        }
        if texts.len() == 0 && wk.len() == 4 && currency.is_none() && digits {
            return true;
        }
        if !is_head && !holds_char(wk, '.') {
            let compact = without_char(wk, ',');
            let n = compact.len();
            proof {
                reveal_strlit("00");
            }
            if !((n > 0 && compact[0] == '0') || n > 3) && n == 3 && !ends_with_str(compact.as_slice(), "00") {
                return (compact[0] as u32) < 128;
            }
            return true;
        }
        if count_char(wk, '.') > 1 || !is_head {
            let compact = without_char(wk, ',');
            let parts = split_chars(compact.as_slice(), '.');
            let ghost ps = parts.deep_view();
            assert(wk@ == number_working(w));
            assert(number_form(g, sv, w, opt_view(currency), is_head) == NumberForm::Chunks);
            let mut i: usize = 0;
            while i < parts.len()
                invariant
                    number_form(g, sv, w, opt_view(currency), is_head) == NumberForm::Chunks,
                    ps == split_on(dropped(number_working(w), ','), '.'),
                    g == self.gold_bytes(),
                    sv == self.silver_bytes(),
                    w == word@,
                    ps == parts.deep_view(),
                    i <= ps.len(),
                    forall|j: int| 0 <= j < i && #[trigger] ps[j].len() > 0 && ps[j][0] != '0' && ps[j].len() != 2
                        ==> one_byte(ps[j][0]),
                decreases ps.len() - i,
            {
                let pc = chars_of(parts[i].as_str());
                assert(pc@ == ps[i as int]);
                if pc.len() > 0 && pc[0] != '0' && pc.len() != 2 && !((pc[0] as u32) < 128) {
                    assert(ps[i as int].len() > 0);
                    return false;
                }
                i += 1;
            }
            return true;
        }
        true
    }

    /// A token's pronunciation and rating (see `token_reading`), for a token read
    /// without cutting inside a char.
    pub fn lookup_token(&self, token: &InternalMToken, ctx: TokenContext) -> (r: (Option<String>, Option<i32>))
        requires
            self.wf(),
            token_reading_ok(self.gold_bytes(), self.silver_bytes(), self.accent_british(), token@, ctx),
        ensures
            r.0.deep_view() == token_reading(self.gold_bytes(), self.silver_bytes(), self.accent_british(), token@, ctx).0,
            r.1 == token_reading(self.gold_bytes(), self.silver_bytes(), self.accent_british(), token@, ctx).1,
    {
        let word = token_word_of(token);
        let wc = chars_of(word.as_str());
        let low = to_lowercase(wc.as_slice());
        let stress = if chars_eq(wc.as_slice(), low.as_slice()) {
            None
        } else if is_all_uppercase(word.as_str()) {
            Some(StressLevel::AboveOne)
        } else {
            Some(StressLevel::Half)
        };
        let currency: Option<&str> = match &token.underscore.currency {
            Some(c) => Some(c.as_str()),
            None => None,
        };
        let (wp, wr) = self.get_word(word.as_str(), Some(token.tag.as_str()), stress, ctx);
        match wp {
            Some(p) => {
                let appended = self.append_currency(p.as_str(), currency);
                return (apply_stress(Some(appended), stress_level(token.underscore.stress)), wr);
            },
            None => {},
        }
        if Self::is_number(word.as_str(), token.underscore.is_head) {
            let (np, nr) = self.get_number(word.as_str(), currency, token.underscore.is_head, token.underscore.num_flags.as_str());
            return (apply_stress(np, stress_level(token.underscore.stress)), nr);
        }
        (None, None)
    }

    /// Whether a token is read without cutting inside a char (see
    /// `token_reading_ok`).
    pub fn token_reading_is_ok(&self, token: &InternalMToken, ctx: TokenContext) -> (b: bool)
        requires
            self.wf(),
        ensures
            b == token_reading_ok(self.gold_bytes(), self.silver_bytes(), self.accent_british(), token@, ctx),
    {
        let word = token_word_of(token);
        let wc = chars_of(word.as_str());
        let low = to_lowercase(wc.as_slice());
        let stress = if chars_eq(wc.as_slice(), low.as_slice()) {
            None
        } else if is_all_uppercase(word.as_str()) {
            Some(StressLevel::AboveOne)
        } else {
            Some(StressLevel::Half)
        };
        let currency: Option<&str> = match &token.underscore.currency {
            Some(c) => Some(c.as_str()),
            None => None,
        };
        let (wp, _) = self.get_word(word.as_str(), Some(token.tag.as_str()), stress, ctx);
        if wp.is_some() {
            return true;
        }
        if !chars_have_numeric(wc.as_slice()) {
            return true;
        }
        if !cut_fits(word.as_str()) {
            return false;
        }
        if Self::is_number(word.as_str(), token.underscore.is_head) {
            return self.number_cuts_are_ok(word.as_str(), currency, token.underscore.is_head);
        }
        true
    }

    /// A token's pronunciation and rating (see `token_reading`); `None` for a
    /// token whose reading would cut inside a char.
    pub fn try_lookup_token(&self, token: &InternalMToken, ctx: TokenContext) -> (r: Option<(Option<String>, Option<i32>)>)
        requires
            self.wf(),
        ensures
            r is Some <==> token_reading_ok(self.gold_bytes(), self.silver_bytes(), self.accent_british(), token@, ctx),
            r matches Some(x) ==> x.0.deep_view() == token_reading(self.gold_bytes(), self.silver_bytes(), self.accent_british(), token@, ctx).0
                && x.1 == token_reading(self.gold_bytes(), self.silver_bytes(), self.accent_british(), token@, ctx).1,
    {
        if self.token_reading_is_ok(token, ctx) {
            Some(self.lookup_token(token, ctx))
        } else {
            None
        }
    }
}

/// The class of an optional weight.
fn stress_level(w: Option<StressWeight>) -> (r: Option<StressLevel>)
    ensures
        r == level_of(w),
{
    match w {
        Some(x) => Some(x.level),
        None => None,
    }
}

/// The word a token is read as (see `token_word`).
fn token_word_of(token: &InternalMToken) -> (r: String)
    ensures
        r@ == token_word(token@),
{
    let raw = match &token.underscore.alias {
        Some(a) => a.as_str(),
        None => token.text.as_str(),
    };
    let cs = chars_of(raw);
    let mut out: Vec<char> = Vec::new();
    let mut i: usize = 0;
    while i < cs.len()
        invariant
            i <= cs@.len(),
            out@ == straightened(cs@).take(i as int),
        decreases cs@.len() - i,
    {
        let c = if cs[i] == '\u{2018}' || cs[i] == '\u{2019}' {
            '\''
        } else {
            cs[i]
        };
        let piece = Lexicon::numeric_if_needed(c);
        extend_chars(&mut out, piece.as_str());
        i += 1;
        assert(out@ =~= straightened(cs@).take(i as int));
    }
    assert(straightened(cs@).take(cs@.len() as int) =~= straightened(cs@));
    string_from_chars(out.as_slice())
}

/// The currencies and their units: the dollar and the euro count their hundredths
/// in cents, the pound in pence; no other symbol is a currency.
pub proof fn law_currency_units(c: Seq<char>)
    ensures
        c == "$"@ ==> currency_units(c) == Some(("dollar"@, "cent"@)),
        c == "\u{a3}"@ ==> currency_units(c) == Some(("pound"@, "pence"@)),
        c == "\u{20ac}"@ ==> currency_units(c) == Some(("euro"@, "cent"@)),
        !(c == "$"@ || c == "\u{a3}"@ || c == "\u{20ac}"@) ==> currency_units(c) is None,
{
    lemma_currency_symbols_differ();
}

proof fn lemma_currency_symbols_differ()
    ensures
        "$"@ != "\u{a3}"@,
        "$"@ != "\u{20ac}"@,
        "\u{a3}"@ != "\u{20ac}"@,
{
    reveal_strlit("$");
    reveal_strlit("\u{a3}");
    reveal_strlit("\u{20ac}");
    assert("$"@[0] != "\u{a3}"@[0]);
    assert("$"@[0] != "\u{20ac}"@[0]);
    assert("\u{a3}"@[0] != "\u{20ac}"@[0]);
}

/// A money amount reads with its currency's units: an amount in euros reads its
/// whole euros and its cents exactly as the same amount in dollars reads its
/// dollars and cents, with "euro" in place of "dollar" (so "€3.50" reads "three
/// euros and fifty cents").
pub proof fn law_euro_amounts_read_in_cents(
    g: Seq<u8>,
    s: Seq<u8>,
    british: bool,
    w: Seq<char>,
    is_head: bool,
    flags: Seq<char>,
)
    requires
        number_form(g, s, w, Some("\u{20ac}"@), is_head) is Money,
        currency_amount(number_working(w)),
    ensures
        number_readings(g, s, british, w, Some("\u{20ac}"@), is_head, flags) == money_read(
            g,
            s,
            british,
            sign_readings(g, s, w),
            quantities(amounts(number_working(w)).0, amounts(number_working(w)).1, "euro"@, "cent"@),
            0,
            flags,
        ),
        currency_units("\u{20ac}"@)->Some_0.1 == currency_units("$"@)->Some_0.1,
{
    lemma_currency_symbols_differ();
}

/// The symbols read as words: "%" as "percent", "&" as "and", "+" as "plus", "@" as
/// "at"; where they join parts of an address, "." as "dot" and "/" as "slash"; no
/// other word is a symbol.
pub proof fn law_symbol_words(w: Seq<char>)
    ensures
        w == "%"@ ==> symbol_word(w) == Some("percent"@),
        w == "&"@ ==> symbol_word(w) == Some("and"@),
        w == "+"@ ==> symbol_word(w) == Some("plus"@),
        w == "@"@ ==> symbol_word(w) == Some("at"@),
        !(w == "%"@ || w == "&"@ || w == "+"@ || w == "@"@) ==> symbol_word(w) is None,
        w == "."@ ==> add_symbol_word(w) == Some("dot"@),
        w == "/"@ ==> add_symbol_word(w) == Some("slash"@),
        !(w == "."@ || w == "/"@) ==> add_symbol_word(w) is None,
{
    reveal_strlit("%");
    reveal_strlit("&");
    reveal_strlit("+");
    reveal_strlit("@");
    reveal_strlit(".");
    reveal_strlit("/");
    assert("%"@ != "&"@) by { assert("%"@[0] != "&"@[0]); }
    assert("%"@ != "+"@) by { assert("%"@[0] != "+"@[0]); }
    assert("%"@ != "@"@) by { assert("%"@[0] != "@"@[0]); }
    assert("&"@ != "+"@) by { assert("&"@[0] != "+"@[0]); }
    assert("&"@ != "@"@) by { assert("&"@[0] != "@"@[0]); }
    assert("+"@ != "@"@) by { assert("+"@[0] != "@"@[0]); }
    assert("."@ != "/"@) by { assert("."@[0] != "/"@[0]); }
}

} // verus!
