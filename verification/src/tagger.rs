//! Part-of-speech tags for tokens, guessed from their spelling.

use vstd::prelude::*;
use vstd::pervasive::VecAdditionalExecFns;
use vstd::string::StringSliceAdditionalSpecFns;
use vstd::utf8::{encode_utf8, encode_utf8_decode_utf8, encode_utf8_valid_utf8, is_char_boundary_start_end_of_seq};
use crate::normalization::{span_views, FeatureKindView, FeatureSpan, FeatureSpanKind, FeatureSpanView};
use crate::pattern::{
    byte_slice, char_offset, char_offset_of, compile_regex, cuts_cleanly, find_from, find_ranges,
    int_ranges, ordered_ranges, regex_compiles, regex_match_from, regex_match_ranges, regex_pattern,
    slice_bytes,
};
use crate::phonemes::StressWeight;
use crate::text::{
    all_ascii, ascii_lowercase, all_uppercase, chars_all_uppercase, chars_eq_str, chars_have_numeric, chars_of, ends_with,
    ends_with_str, has_numeric, is_lowercase, is_uppercase, lowercase_char, lowercase_str,
    is_whitespace, starts_with, starts_with_str, str_eq, title_case, to_lowercase, uppercase_char,
    whitespace_char,
};

verus! {

/// An ASCII punctuation char (`char::is_ascii_punctuation`).
pub open spec fn ascii_punctuation(c: char) -> bool {
    ||| '!' <= c <= '/'
    ||| ':' <= c <= '@'
    ||| '[' <= c <= '`'
    ||| '{' <= c <= '~'
}

/// Every char of `w` is ASCII punctuation (vacuously so for the empty word).
pub open spec fn all_ascii_punctuation(w: Seq<char>) -> bool {
    forall|k: int| 0 <= k < w.len() ==> #[trigger] ascii_punctuation(w[k])
}

/// Determiners.
pub open spec fn determiner(l: Seq<char>) -> bool {
    ||| l == "the"@ ||| l == "a"@ ||| l == "an"@ ||| l == "this"@ ||| l == "that"@
    ||| l == "these"@ ||| l == "those"@
}

/// Pronouns and wh-words.
pub open spec fn pronoun(l: Seq<char>) -> bool {
    ||| l == "i"@ ||| l == "me"@ ||| l == "my"@ ||| l == "myself"@ ||| l == "you"@
    ||| l == "your"@ ||| l == "yours"@ ||| l == "yourself"@ ||| l == "he"@ ||| l == "him"@
    ||| l == "his"@ ||| l == "himself"@ ||| l == "she"@ ||| l == "her"@ ||| l == "hers"@
    ||| l == "herself"@ ||| l == "it"@ ||| l == "its"@ ||| l == "itself"@ ||| l == "we"@
    ||| l == "us"@ ||| l == "our"@ ||| l == "ours"@ ||| l == "ourselves"@ ||| l == "they"@
    ||| l == "them"@ ||| l == "their"@ ||| l == "theirs"@ ||| l == "themselves"@
    ||| l == "who"@ ||| l == "whom"@ ||| l == "whose"@ ||| l == "which"@ ||| l == "what"@
}

/// Prepositions.
pub open spec fn preposition(l: Seq<char>) -> bool {
    ||| l == "in"@ ||| l == "on"@ ||| l == "at"@ ||| l == "by"@ ||| l == "for"@
    ||| l == "with"@ ||| l == "about"@ ||| l == "against"@ ||| l == "between"@
    ||| l == "into"@ ||| l == "through"@ ||| l == "during"@ ||| l == "before"@
    ||| l == "after"@ ||| l == "above"@ ||| l == "below"@ ||| l == "from"@ ||| l == "of"@
}

/// Coordinating conjunctions.
pub open spec fn conjunction(l: Seq<char>) -> bool {
    ||| l == "and"@ ||| l == "but"@ ||| l == "or"@ ||| l == "so"@ ||| l == "nor"@
    ||| l == "yet"@
}

/// Quote marks.
pub open spec fn quote_mark(w: Seq<char>) -> bool {
    ||| w == "\""@ ||| w == "\u{201c}"@ ||| w == "\u{201d}"@ ||| w == "\u{2018}"@
    ||| w == "\u{2019}"@ ||| w == "'"@ ||| w == "`"@
}

/// The tag of a word that is none of the punctuation, numbers and closed-class
/// words: proper nouns by capitalisation, then verb forms by ending, then nouns.
pub open spec fn open_class_tag(w: Seq<char>, l: Seq<char>) -> Seq<char> {
    if all_uppercase(w) && w.len() <= 4 {
        "NNP"@
    } else if title_case(w) {
        "NNP"@
    } else if ends_with(l, "ed"@) {
        "VBD"@
    } else if ends_with(l, "ing"@) {
        "VBG"@
    } else if ends_with(l, "s"@) {
        "VBZ"@
    } else {
        "NN"@
    }
}

/// The tag given to the word `w`.
pub open spec fn tag_of(w: Seq<char>) -> Seq<char> {
    let l = lowercase_str(w);
    if w == "$"@ || w == "\u{a3}"@ || w == "\u{20ac}"@ {
        "$"@
    } else if w == "#"@ {
        "#"@
    } else if has_numeric(w) {
        "CD"@
    } else if w == ","@ {
        ","@
    } else if w == "."@ || w == "!"@ || w == "?"@ {
        "."@
    } else if w == ":"@ || w == ";"@ || w == "-"@ || w == "\u{2013}"@ || w == "\u{2014}"@ {
        ":"@
    } else if w == "("@ {
        "-LRB-"@
    } else if w == ")"@ {
        "-RRB-"@
    } else if quote_mark(w) {
        "``"@
    } else if all_ascii_punctuation(w) {
        "NFP"@
    } else if determiner(l) {
        "DT"@
    } else if pronoun(l) {
        "PRP"@
    } else if l == "to"@ {
        "TO"@
    } else if preposition(l) {
        "IN"@
    } else if conjunction(l) {
        "CC"@
    } else {
        open_class_tag(w, l)
    }
}

/// An uppercase first letter followed by lowercase letters only.
pub fn is_title_case(s: &str) -> (r: bool)
    ensures
        r == title_case(s@),
{
    let cs = chars_of(s);
    if cs.len() == 0 {
        return false;
    }
    if !is_uppercase(cs[0]) {
        return false;
    }
    let mut k: usize = 1;
    while k < cs.len()
        invariant
            1 <= k <= cs@.len(),
            cs@ == s@,
            forall|j: int| 1 <= j < k ==> #[trigger] lowercase_char(cs@[j]),
        decreases cs@.len() - k,
    {
        if !is_lowercase(cs[k]) {
            return false;
        }
        k += 1;
    }
    true
}

/// Non-empty and uppercase throughout.
pub fn is_all_uppercase(s: &str) -> (r: bool)
    ensures
        r == all_uppercase(s@),
{
    crate::lexicon::is_all_uppercase(s)
}

fn is_ascii_punctuation(c: char) -> (r: bool)
    ensures
        r == ascii_punctuation(c),
{
    ('!' <= c && c <= '/') || (':' <= c && c <= '@') || ('[' <= c && c <= '`') || ('{' <= c
        && c <= '~')
}

fn all_punctuation(cs: &[char]) -> (r: bool)
    ensures
        r == all_ascii_punctuation(cs@),
{
    let mut k: usize = 0;
    while k < cs.len()
        invariant
            k <= cs@.len(),
            forall|j: int| 0 <= j < k ==> #[trigger] ascii_punctuation(cs@[j]),
        decreases cs@.len() - k,
    {
        if !is_ascii_punctuation(cs[k]) {
            return false;
        }
        k += 1;
    }
    true
}

fn is_determiner(l: &[char]) -> (r: bool)
    ensures
        r == determiner(l@),
{
    chars_eq_str(l, "the") || chars_eq_str(l, "a") || chars_eq_str(l, "an") || chars_eq_str(
        l,
        "this",
    ) || chars_eq_str(l, "that") || chars_eq_str(l, "these") || chars_eq_str(l, "those")
}

fn is_pronoun(l: &[char]) -> (r: bool)
    ensures
        r == pronoun(l@),
{
    chars_eq_str(l, "i") || chars_eq_str(l, "me") || chars_eq_str(l, "my") || chars_eq_str(
        l,
        "myself",
    ) || chars_eq_str(l, "you") || chars_eq_str(l, "your") || chars_eq_str(l, "yours")
        || chars_eq_str(l, "yourself") || chars_eq_str(l, "he") || chars_eq_str(l, "him")
        || chars_eq_str(l, "his") || chars_eq_str(l, "himself") || chars_eq_str(l, "she")
        || chars_eq_str(l, "her") || chars_eq_str(l, "hers") || chars_eq_str(l, "herself")
        || chars_eq_str(l, "it") || chars_eq_str(l, "its") || chars_eq_str(l, "itself")
        || chars_eq_str(l, "we") || chars_eq_str(l, "us") || chars_eq_str(l, "our")
        || chars_eq_str(l, "ours") || chars_eq_str(l, "ourselves") || chars_eq_str(l, "they")
        || chars_eq_str(l, "them") || chars_eq_str(l, "their") || chars_eq_str(l, "theirs")
        || chars_eq_str(l, "themselves") || chars_eq_str(l, "who") || chars_eq_str(l, "whom")
        || chars_eq_str(l, "whose") || chars_eq_str(l, "which") || chars_eq_str(l, "what")
}

fn is_preposition(l: &[char]) -> (r: bool)
    ensures
        r == preposition(l@),
{
    chars_eq_str(l, "in") || chars_eq_str(l, "on") || chars_eq_str(l, "at") || chars_eq_str(
        l,
        "by",
    ) || chars_eq_str(l, "for") || chars_eq_str(l, "with") || chars_eq_str(l, "about")
        || chars_eq_str(l, "against") || chars_eq_str(l, "between") || chars_eq_str(l, "into")
        || chars_eq_str(l, "through") || chars_eq_str(l, "during") || chars_eq_str(l, "before")
        || chars_eq_str(l, "after") || chars_eq_str(l, "above") || chars_eq_str(l, "below")
        || chars_eq_str(l, "from") || chars_eq_str(l, "of")
}

fn is_conjunction(l: &[char]) -> (r: bool)
    ensures
        r == conjunction(l@),
{
    chars_eq_str(l, "and") || chars_eq_str(l, "but") || chars_eq_str(l, "or") || chars_eq_str(
        l,
        "so",
    ) || chars_eq_str(l, "nor") || chars_eq_str(l, "yet")
}

fn is_quote_mark(w: &[char]) -> (r: bool)
    ensures
        r == quote_mark(w@),
{
    chars_eq_str(w, "\"") || chars_eq_str(w, "\u{201c}") || chars_eq_str(w, "\u{201d}")
        || chars_eq_str(w, "\u{2018}") || chars_eq_str(w, "\u{2019}") || chars_eq_str(w, "'")
        || chars_eq_str(w, "`")
}

/// The part-of-speech tag guessed for `word`: currency and number marks, punctuation
/// classes, closed-class words (compared in lowercase), then proper nouns by
/// capitalisation and verb forms by ending; `NN` otherwise.
pub fn map_tag(word: &str) -> (tag: String)
    ensures
        tag@ == tag_of(word@),
        letter_word(word@) && listed_determiner(ascii_lowercase(word@)) ==> tag@ == "DT"@,
        letter_word(word@) && listed_pronoun(ascii_lowercase(word@)) ==> tag@ == "PRP"@,
        letter_word(word@) && ascii_lowercase(word@) == "to"@ ==> tag@ == "TO"@,
        letter_word(word@) && listed_preposition(ascii_lowercase(word@)) ==> tag@ == "IN"@,
        letter_word(word@) && listed_conjunction(ascii_lowercase(word@)) ==> tag@ == "CC"@,
{
    let w = chars_of(word);
    let ws = w.as_slice();
    proof {
        if letter_word(word@) {
            lemma_letter_word_is_no_mark(word@);
            assert forall|k: int| 0 <= k < word@.len() implies #[trigger] word@[k] <= '\u{7f}' && !('0' <= word@[k] <= '9') by {
                assert(ascii_letter(word@[k]));
            }
            assert(all_ascii(word@));
            let l = ascii_lowercase(word@);
            if listed_pronoun(l) {
                lemma_pronoun_is_no_earlier_class(l);
            }
            if l == "to"@ {
                lemma_to_is_no_earlier_class();
            }
            if listed_preposition(l) {
                lemma_preposition_is_no_earlier_class(l);
            }
            if listed_conjunction(l) {
                lemma_conjunction_is_no_earlier_class(l);
            }
        }
    }
    if chars_eq_str(ws, "$") || chars_eq_str(ws, "\u{a3}") || chars_eq_str(ws, "\u{20ac}") {
        return String::from_str("$");
    }
    if chars_eq_str(ws, "#") {
        return String::from_str("#");
    }
    if chars_have_numeric(ws) {
        return String::from_str("CD");
    }
    if chars_eq_str(ws, ",") {
        return String::from_str(",");
    }
    if chars_eq_str(ws, ".") || chars_eq_str(ws, "!") || chars_eq_str(ws, "?") {
        return String::from_str(".");
    }
    if chars_eq_str(ws, ":") || chars_eq_str(ws, ";") || chars_eq_str(ws, "-") || chars_eq_str(
        ws,
        "\u{2013}",
    ) || chars_eq_str(ws, "\u{2014}") {
        return String::from_str(":");
    }
    if chars_eq_str(ws, "(") {
        return String::from_str("-LRB-");
    }
    if chars_eq_str(ws, ")") {
        return String::from_str("-RRB-");
    }
    if is_quote_mark(ws) {
        return String::from_str("``");
    }
    if all_punctuation(ws) {
        return String::from_str("NFP");
    }
    let lv = to_lowercase(ws);
    let l = lv.as_slice();
    if is_determiner(l) {
        String::from_str("DT")
    } else if is_pronoun(l) {
        String::from_str("PRP")
    } else if chars_eq_str(l, "to") {
        String::from_str("TO")
    } else if is_preposition(l) {
        String::from_str("IN")
    } else if is_conjunction(l) {
        String::from_str("CC")
    } else if chars_all_uppercase(ws) && w.len() <= 4 {
        String::from_str("NNP")
    } else if is_title_case(word) {
        String::from_str("NNP")
    } else if ends_with_str(l, "ed") {
        String::from_str("VBD")
    } else if ends_with_str(l, "ing") {
        String::from_str("VBG")
    } else if ends_with_str(l, "s") {
        String::from_str("VBZ")
    } else {
        String::from_str("NN")
    }
}

/// What the pipeline notes on a token besides its text.
pub struct InternalUnderscore {
    /// The token starts its word.
    pub is_head: bool,
    /// Text read in place of the token's own.
    pub alias: Option<String>,
    /// A stress weight the token carries.
    pub stress: Option<StressWeight>,
    /// The currency a number amounts to.
    pub currency: Option<String>,
    /// How numbers are read: `&` reads `and`, `n` joins `and` on, `a` reads a
    /// leading `one` as `ə`.
    pub num_flags: String,
    /// A space goes before the token's phonemes when tokens are merged.
    pub prespace: bool,
    /// How trustworthy the phonemes are.
    pub rating: Option<i32>,
}

/// A token on its way through the pipeline.
pub struct InternalMToken {
    pub text: String,
    pub tag: String,
    pub whitespace: String,
    pub phonemes: Option<String>,
    pub underscore: InternalUnderscore,
}

/// A token as its text: every string taken by its chars.
#[verifier::ext_equal]
pub struct TokenView {
    pub text: Seq<char>,
    pub tag: Seq<char>,
    pub whitespace: Seq<char>,
    pub phonemes: Option<Seq<char>>,
    pub is_head: bool,
    pub alias: Option<Seq<char>>,
    pub stress: Option<StressWeight>,
    pub currency: Option<Seq<char>>,
    pub num_flags: Seq<char>,
    pub prespace: bool,
    pub rating: Option<i32>,
}

/// The text of an optional string.
pub open spec fn opt_chars(o: Option<String>) -> Option<Seq<char>> {
    match o {
        Some(s) => Some(s@),
        None => None,
    }
}

impl View for InternalMToken {
    type V = TokenView;

    open spec fn view(&self) -> TokenView {
        TokenView {
            text: self.text@,
            tag: self.tag@,
            whitespace: self.whitespace@,
            phonemes: opt_chars(self.phonemes),
            is_head: self.underscore.is_head,
            alias: opt_chars(self.underscore.alias),
            stress: self.underscore.stress,
            currency: opt_chars(self.underscore.currency),
            num_flags: self.underscore.num_flags@,
            prespace: self.underscore.prespace,
            rating: self.underscore.rating,
        }
    }
}

impl DeepView for InternalMToken {
    type V = TokenView;

    open spec fn deep_view(&self) -> TokenView {
        self@
    }
}

/// A copy of an optional string.
pub fn copy_opt(o: &Option<String>) -> (r: Option<String>)
    ensures
        opt_chars(r) == opt_chars(*o),
{
    match o {
        Some(s) => Some(String::from_str(s.as_str())),
        None => None,
    }
}

impl InternalMToken {
    /// A head token with the given text, tag and following whitespace, and nothing
    /// else noted.
    pub fn new(text: String, tag: String, whitespace: String) -> (t: Self)
        ensures
            t@ == (TokenView {
                text: text@,
                tag: tag@,
                whitespace: whitespace@,
                phonemes: None,
                is_head: true,
                alias: None,
                stress: None,
                currency: None,
                num_flags: Seq::empty(),
                prespace: false,
                rating: None,
            }),
    {
        let t = InternalMToken {
            text,
            tag,
            whitespace,
            phonemes: None,
            underscore: InternalUnderscore {
                is_head: true,
                alias: None,
                stress: None,
                currency: None,
                num_flags: String::new(),
                prespace: false,
                rating: None,
            },
        };
        assert(t.underscore.num_flags@ =~= Seq::<char>::empty());
        t
    }

    /// A copy of the token.
    pub fn clone_token(&self) -> (t: Self)
        ensures
            t@ == self@,
    {
        InternalMToken {
            text: String::from_str(self.text.as_str()),
            tag: String::from_str(self.tag.as_str()),
            whitespace: String::from_str(self.whitespace.as_str()),
            phonemes: copy_opt(&self.phonemes),
            underscore: InternalUnderscore {
                is_head: self.underscore.is_head,
                alias: copy_opt(&self.underscore.alias),
                stress: self.underscore.stress,
                currency: copy_opt(&self.underscore.currency),
                num_flags: String::from_str(self.underscore.num_flags.as_str()),
                prespace: self.underscore.prespace,
                rating: self.underscore.rating,
            },
        }
    }
}


/// A word before `read` that makes it a past participle.
pub open spec fn participle_cue(w: Seq<char>) -> bool {
    ||| w == "has"@ ||| w == "have"@ ||| w == "had"@ ||| w == "was"@ ||| w == "were"@ ||| w == "been"@
    ||| w == "get"@ ||| w == "got"@ ||| w == "getting"@ ||| w == "is"@ ||| w == "am"@ ||| w == "are"@
}

/// A word before `read` that makes it a bare verb.
pub open spec fn modal_cue(w: Seq<char>) -> bool {
    ||| w == "will"@ ||| w == "would"@ ||| w == "should"@ ||| w == "could"@ ||| w == "can"@
    ||| w == "may"@ ||| w == "might"@ ||| w == "must"@ ||| w == "shall"@ ||| w == "to"@
}

/// A word that ends the search for a subject.
pub open spec fn clause_break_word(w: Seq<char>) -> bool {
    ||| w == "and"@ ||| w == "but"@ ||| w == "or"@ ||| w == "because"@ ||| w == "although"@
    ||| w == "when"@ ||| w == "if"@ ||| w == "while"@
}

/// A tag that ends the search for a subject.
pub open spec fn clause_break_tag(t: Seq<char>) -> bool {
    t == "."@ || t == ","@ || t == ";"@ || t == ":"@ || t == "CC"@
}

/// A subject taking a past verb.
pub open spec fn third_person(w: Seq<char>) -> bool {
    ||| w == "he"@ ||| w == "she"@ ||| w == "it"@ ||| w == "this"@ ||| w == "that"@ ||| w == "someone"@
    ||| w == "somebody"@ ||| w == "everyone"@ ||| w == "everybody"@ ||| w == "anyone"@
    ||| w == "anybody"@ ||| w == "nobody"@ ||| w == "noone"@
}

/// A subject whose verb's tense the sentence must tell.
pub open spec fn other_person(w: Seq<char>) -> bool {
    ||| w == "i"@ ||| w == "we"@ ||| w == "they"@ ||| w == "you"@ ||| w == "these"@ ||| w == "those"@
}

/// A word that marks the past.
pub open spec fn past_adverb(w: Seq<char>) -> bool {
    ||| w == "yesterday"@ ||| w == "ago"@ ||| w == "previously"@ ||| w == "earlier"@ ||| w == "then"@
    ||| w == "once"@ ||| w == "past"@
}

/// The lowercase text of token `j`.
pub open spec fn lower_text(ts: Seq<TokenView>, j: int) -> Seq<char> {
    lowercase_str(ts[j].text)
}

/// The nearest subject before `j` (searching down from `j`), unless a clause
/// break comes first.
pub open spec fn subject_before(ts: Seq<TokenView>, j: int) -> Option<int>
    decreases j,
{
    if j <= 0 || j > ts.len() {
        None
    } else if clause_break_tag(ts[j - 1].tag) || clause_break_word(lower_text(ts, j - 1)) {
        None
    } else if ts[j - 1].tag == "PRP"@ || starts_with(ts[j - 1].tag, "NN"@) {
        Some(j - 1)
    } else {
        subject_before(ts, j - 1)
    }
}

/// The subject found before `j` stands before `j`.
proof fn lemma_subject_before_bound(ts: Seq<TokenView>, j: int)
    ensures
        subject_before(ts, j) matches Some(k) ==> 0 <= k < j,
    decreases j,
{
    if j > 0 && j <= ts.len() {
        lemma_subject_before_bound(ts, j - 1);
    }
}

/// Some token marks the past.
pub open spec fn sentence_in_past(ts: Seq<TokenView>) -> bool {
    exists|k: int| 0 <= k < ts.len() && past_adverb(#[trigger] lower_text(ts, k))
}

/// The tag `read` at `i` takes from its neighbours: a participle after a form of
/// `have`, `be` or `get` within three words, a bare verb after a modal or `to`,
/// else by its subject and whether the sentence is in the past (unchanged for a
/// subject of another kind).
pub open spec fn read_tag(ts: Seq<TokenView>, i: int) -> Seq<char> {
    let lo = if i >= 3 { i - 3 } else { 0 };
    if exists|j: int| lo <= j < i && participle_cue(#[trigger] lower_text(ts, j)) {
        "VBN"@
    } else if exists|j: int| lo <= j < i && modal_cue(#[trigger] lower_text(ts, j)) {
        "VB"@
    } else {
        match subject_before(ts, i) {
            Some(j) => if third_person(lower_text(ts, j)) {
                "VBD"@
            } else if other_person(lower_text(ts, j)) {
                if sentence_in_past(ts) {
                    "VBD"@
                } else {
                    "VB"@
                }
            } else if ts[j].tag == "NNP"@ || ts[j].tag == "NN"@ {
                "VBD"@
            } else {
                ts[i].tag
            },
            None => if sentence_in_past(ts) {
                "VBD"@
            } else {
                "VB"@
            },
        }
    }
}

/// The lowercase text of a token.
fn lower_of(t: &InternalMToken) -> (r: Vec<char>)
    ensures
        r@ == lowercase_str(t.text@),
{
    let cs = chars_of(t.text.as_str());
    to_lowercase(cs.as_slice())
}

fn is_participle_cue(w: &[char]) -> (b: bool)
    ensures
        b == participle_cue(w@),
{
    chars_eq_str(w, "has") || chars_eq_str(w, "have") || chars_eq_str(w, "had") || chars_eq_str(w, "was")
        || chars_eq_str(w, "were") || chars_eq_str(w, "been") || chars_eq_str(w, "get") || chars_eq_str(w, "got")
        || chars_eq_str(w, "getting") || chars_eq_str(w, "is") || chars_eq_str(w, "am") || chars_eq_str(w, "are")
}

fn is_modal_cue(w: &[char]) -> (b: bool)
    ensures
        b == modal_cue(w@),
{
    chars_eq_str(w, "will") || chars_eq_str(w, "would") || chars_eq_str(w, "should") || chars_eq_str(w, "could")
        || chars_eq_str(w, "can") || chars_eq_str(w, "may") || chars_eq_str(w, "might") || chars_eq_str(w, "must")
        || chars_eq_str(w, "shall") || chars_eq_str(w, "to")
}

fn is_clause_break_word(w: &[char]) -> (b: bool)
    ensures
        b == clause_break_word(w@),
{
    chars_eq_str(w, "and") || chars_eq_str(w, "but") || chars_eq_str(w, "or") || chars_eq_str(w, "because")
        || chars_eq_str(w, "although") || chars_eq_str(w, "when") || chars_eq_str(w, "if") || chars_eq_str(w, "while")
}

fn is_clause_break_tag(t: &str) -> (b: bool)
    ensures
        b == clause_break_tag(t@),
{
    str_eq(t, ".") || str_eq(t, ",") || str_eq(t, ";") || str_eq(t, ":") || str_eq(t, "CC")
}

fn is_third_person(w: &[char]) -> (b: bool)
    ensures
        b == third_person(w@),
{
    chars_eq_str(w, "he") || chars_eq_str(w, "she") || chars_eq_str(w, "it") || chars_eq_str(w, "this")
        || chars_eq_str(w, "that") || chars_eq_str(w, "someone") || chars_eq_str(w, "somebody") || chars_eq_str(
        w,
        "everyone",
    ) || chars_eq_str(w, "everybody") || chars_eq_str(w, "anyone") || chars_eq_str(w, "anybody") || chars_eq_str(
        w,
        "nobody",
    ) || chars_eq_str(w, "noone")
}

fn is_other_person(w: &[char]) -> (b: bool)
    ensures
        b == other_person(w@),
{
    chars_eq_str(w, "i") || chars_eq_str(w, "we") || chars_eq_str(w, "they") || chars_eq_str(w, "you")
        || chars_eq_str(w, "these") || chars_eq_str(w, "those")
}

fn is_past_adverb(w: &[char]) -> (b: bool)
    ensures
        b == past_adverb(w@),
{
    chars_eq_str(w, "yesterday") || chars_eq_str(w, "ago") || chars_eq_str(w, "previously") || chars_eq_str(
        w,
        "earlier",
    ) || chars_eq_str(w, "then") || chars_eq_str(w, "once") || chars_eq_str(w, "past")
}

/// Whether some token marks the past.
fn in_past(tokens: &[InternalMToken]) -> (b: bool)
    ensures
        b == sentence_in_past(tokens.deep_view()),
{
    let ghost ts = tokens.deep_view();
    let mut k: usize = 0;
    while k < tokens.len()
        invariant
            ts == tokens.deep_view(),
            k <= ts.len(),
            forall|j: int| 0 <= j < k ==> !past_adverb(#[trigger] lower_text(ts, j)),
        decreases ts.len() - k,
    {
        assert(tokens@[k as int]@ == ts[k as int]);
        let w = lower_of(&tokens[k]);
        if is_past_adverb(w.as_slice()) {
            assert(past_adverb(lower_text(ts, k as int)));
            return true;
        }
        k += 1;
    }
    false
}

/// The nearest subject before `i` (see `subject_before`).
fn find_subject(tokens: &[InternalMToken], i: usize) -> (r: Option<usize>)
    requires
        i < tokens@.len(),
    ensures
        match r {
            Some(j) => j < i && subject_before(tokens.deep_view(), i as int) == Some(j as int),
            None => subject_before(tokens.deep_view(), i as int) is None,
        },
{
    let ghost ts = tokens.deep_view();
    let mut j = i;
    while j > 0
        invariant
            ts == tokens.deep_view(),
            j <= i < ts.len(),
            subject_before(ts, j as int) == subject_before(ts, i as int),
        decreases j,
    {
        assert(tokens@[j - 1]@ == ts[j - 1]);
        let t = &tokens[j - 1];
        let w = lower_of(t);
        if is_clause_break_tag(t.tag.as_str()) || is_clause_break_word(w.as_slice()) {
            return None;
        }
        let tc = chars_of(t.tag.as_str());
        if str_eq(t.tag.as_str(), "PRP") || starts_with_str(tc.as_slice(), "NN") {
            proof { lemma_subject_before_bound(ts, i as int); }
            return Some(j - 1);
        }
        j -= 1;
    }
    None
}

/// Tag the homograph `read` at `i` from its neighbours (see `read_tag`).
pub fn var_refine_read(tokens: &mut [InternalMToken], i: usize)
    requires
        i < old(tokens)@.len(),
    ensures
        final(tokens).deep_view() == old(tokens).deep_view().update(i as int, TokenView {
            tag: read_tag(old(tokens).deep_view(), i as int),
            ..old(tokens).deep_view()[i as int]
        }),
{
    let ghost ts = tokens.deep_view();
    let lo = if i >= 3 { i - 3 } else { 0 };
    let mut participle = false;
    let mut modal = false;
    let mut j = lo;
    while j < i
        invariant
            ts == tokens.deep_view(),
            i < ts.len(),
            lo <= j <= i,
            participle == exists|x: int| lo <= x < j && participle_cue(#[trigger] lower_text(ts, x)),
            modal == exists|x: int| lo <= x < j && modal_cue(#[trigger] lower_text(ts, x)),
        decreases i - j,
    {
        assert(tokens@[j as int]@ == ts[j as int]);
        let w = lower_of(&tokens[j]);
        let ghost lw = lower_text(ts, j as int);
        if is_participle_cue(w.as_slice()) {
            participle = true;
        }
        if is_modal_cue(w.as_slice()) {
            modal = true;
        }
        proof {
            assert(participle_cue(lw) ==> participle);
            assert(modal_cue(lw) ==> modal);
        }
        j += 1;
    }
    let tag = if participle {
        String::from_str("VBN")
    } else if modal {
        String::from_str("VB")
    } else {
        match find_subject(tokens, i) {
            Some(s) => {
                assert(tokens@[s as int]@ == ts[s as int]);
                let w = lower_of(&tokens[s]);
                if is_third_person(w.as_slice()) {
                    String::from_str("VBD")
                } else if is_other_person(w.as_slice()) {
                    if in_past(tokens) {
                        String::from_str("VBD")
                    } else {
                        String::from_str("VB")
                    }
                } else if str_eq(tokens[s].tag.as_str(), "NNP") || str_eq(tokens[s].tag.as_str(), "NN") {
                    String::from_str("VBD")
                } else {
                    String::from_str(tokens[i].tag.as_str())
                }
            },
            None => {
                if in_past(tokens) {
                    String::from_str("VBD")
                } else {
                    String::from_str("VB")
                }
            },
        }
    };
    assert(tag@ == read_tag(ts, i as int));
    assert(tokens@[i as int]@ == ts[i as int]);
    let mut t = tokens[i].clone_token();
    t.tag = tag;
    let ghost tv = t@;
    tokens[i] = t;
    assert(tokens.deep_view() =~= ts.update(i as int, tv));
}

// ---------------------------------------------------------------------------
// Splitting text into tagged tokens
// ---------------------------------------------------------------------------

/// What a token is: a run of letters and digits (with apostrophe-joined runs), a
/// run of dashes and underscores, or any other single char that is not whitespace.
pub const TOKEN_PATTERN: &'static str = r"[\p{L}\p{N}]+(?:['‘’][\p{L}\p{N}]+)*|[-_]+|[^\p{L}\p{N}\s]";

/// The byte ranges of the tokens of `text`.
pub open spec fn token_ranges(text: Seq<char>) -> Seq<(int, int)> {
    regex_match_ranges(TOKEN_PATTERN@, text)
}

/// Where the whitespace after token `k` ends: where a search from the token's end
/// finds the next token, or the end of the text after the last token (or when the
/// search finds none).
pub open spec fn gap_end(text: Seq<char>, rs: Seq<(int, int)>, k: int) -> int {
    if k + 1 < rs.len() {
        match regex_match_from(TOKEN_PATTERN@, text, rs[k].1) {
            Some(m) => m.0,
            None => encode_utf8(text).len() as int,
        }
    } else {
        encode_utf8(text).len() as int
    }
}

/// A quote mark at byte `start` opens a quotation: it starts the text or follows
/// whitespace.
pub open spec fn opens_quote(text: Seq<char>, start: int) -> bool {
    let before = byte_slice(text, 0, start);
    before.len() == 0 || whitespace_char(before.last())
}

/// The tag a token takes from its own text, quote marks told apart as opening
/// (` `` `) or closing (`''`).
pub open spec fn first_tag(text: Seq<char>, rs: Seq<(int, int)>, k: int) -> Seq<char> {
    let w = byte_slice(text, rs[k].0, rs[k].1);
    if quote_mark(w) {
        if opens_quote(text, rs[k].0) {
            "``"@
        } else {
            "''"@
        }
    } else {
        tag_of(w)
    }
}

/// Token `k` as the text gives it.
pub open spec fn fresh_token(text: Seq<char>, rs: Seq<(int, int)>, k: int) -> TokenView {
    TokenView {
        text: byte_slice(text, rs[k].0, rs[k].1),
        tag: first_tag(text, rs, k),
        whitespace: byte_slice(text, rs[k].1, gap_end(text, rs, k)),
        phonemes: None,
        is_head: true,
        alias: None,
        stress: None,
        currency: None,
        num_flags: Seq::empty(),
        prespace: false,
        rating: None,
    }
}

/// The tokens as the text gives them.
pub open spec fn fresh_tokens(text: Seq<char>, rs: Seq<(int, int)>) -> Seq<TokenView> {
    Seq::new(rs.len(), |k: int| fresh_token(text, rs, k))
}

/// A `read` tagged as a verb or a noun, whose tag the sentence decides.
pub open spec fn refinable_read(t: TokenView) -> bool {
    lowercase_str(t.text) == "read"@ && (starts_with(t.tag, "VB"@) || t.tag == "VERB"@ || t.tag
        == "NN"@)
}

/// The tokens after the first `n` have been looked at for `read`, in order.
pub open spec fn refined_reads(ts: Seq<TokenView>, n: int) -> Seq<TokenView>
    decreases n,
{
    if n <= 0 {
        ts
    } else {
        let prev = refined_reads(ts, n - 1);
        if n - 1 < prev.len() && refinable_read(prev[n - 1]) {
            prev.update(n - 1, TokenView { tag: read_tag(prev, n - 1), ..prev[n - 1] })
        } else {
            prev
        }
    }
}

proof fn lemma_refined_reads_len(ts: Seq<TokenView>, n: int)
    ensures
        refined_reads(ts, n).len() == ts.len(),
    decreases n,
{
    if n > 0 {
        lemma_refined_reads_len(ts, n - 1);
    }
}

/// The char ranges of the tokens.
pub open spec fn char_ranges(text: Seq<char>, rs: Seq<(int, int)>) -> Seq<(int, int)> {
    rs.map_values(|r: (int, int)| (char_offset(text, r.0), char_offset(text, r.1)))
}

/// A token's char range meets a feature's.
pub open spec fn covers(f: FeatureSpanView, r: (int, int)) -> bool {
    r.0 < f.end && r.1 > f.start
}

/// No token before `k` meets the feature.
pub open spec fn first_covered(f: FeatureSpanView, cr: Seq<(int, int)>, k: int) -> bool {
    forall|j: int| 0 <= j < k ==> !covers(f, #[trigger] cr[j])
}

/// Token `k` once the feature is applied: a stress weight on each covered token;
/// an override's phonemes on the first covered token, which heads the rest (left
/// with no phonemes of their own), each rated 5; number flags on each.
pub open spec fn featured_token(t: TokenView, f: FeatureSpanView, cr: Seq<(int, int)>, k: int) -> TokenView {
    if !covers(f, cr[k]) {
        t
    } else {
        match f.kind {
            FeatureKindView::Stress(w) => TokenView { stress: Some(w), ..t },
            FeatureKindView::PhonemeOverride(v) => {
                let head = first_covered(f, cr, k);
                TokenView {
                    is_head: head,
                    phonemes: Some(if head { v } else { Seq::empty() }),
                    rating: Some(5),
                    ..t
                }
            },
            FeatureKindView::NumFlags(fl) => TokenView { num_flags: fl, ..t },
        }
    }
}

/// The tokens once the feature is applied.
pub open spec fn featured(ts: Seq<TokenView>, f: FeatureSpanView, cr: Seq<(int, int)>) -> Seq<TokenView> {
    Seq::new(ts.len(), |k: int| featured_token(ts[k], f, cr, k))
}

/// The tokens once the first `n` features are applied, in order.
pub open spec fn all_featured(ts: Seq<TokenView>, fs: Seq<FeatureSpanView>, cr: Seq<(int, int)>, n: int) -> Seq<TokenView>
    decreases n,
{
    if n <= 0 {
        ts
    } else {
        featured(all_featured(ts, fs, cr, n - 1), fs[n - 1], cr)
    }
}

/// The tagged tokens of `text` with the features applied.
pub open spec fn tagged_tokens(text: Seq<char>, fs: Seq<FeatureSpanView>) -> Seq<TokenView> {
    let rs = token_ranges(text);
    all_featured(
        refined_reads(fresh_tokens(text, rs), rs.len() as int),
        fs,
        char_ranges(text, rs),
        fs.len() as int,
    )
}


/// Token `k` of `text`, and its char range.
fn fresh_token_at(re: &regex::Regex, text: &str, rs: &Vec<(usize, usize)>, k: usize) -> (r: (
    InternalMToken,
    (usize, usize),
))
    requires
        regex_pattern(*re) == TOKEN_PATTERN@,
        int_ranges(rs@) == token_ranges(text@),
        ordered_ranges(text@, int_ranges(rs@)),
        k < rs@.len(),
    ensures
        r.0@ == fresh_token(text@, token_ranges(text@), k as int),
        r.1.0 as int == char_offset(text@, rs@[k as int].0 as int),
        r.1.1 as int == char_offset(text@, rs@[k as int].1 as int),
{
    let ghost irs = int_ranges(rs@);
    let (s, e) = rs[k];
    assert(irs[k as int] == (s as int, e as int));
    let word = slice_bytes(text, s, e);
    let end = text.as_bytes().len();
    proof {
        encode_utf8_valid_utf8(text@);
        is_char_boundary_start_end_of_seq(encode_utf8(text@));
    }
    assert(cuts_cleanly(text@, irs[k as int].0) && cuts_cleanly(text@, irs[k as int].1));
    assert(end as int == encode_utf8(text@).len());
    let next = if k < rs.len() - 1 {
        match find_from(re, text, e) {
            Some(m) => m.0,
            None => end,
        }
    } else {
        end
    };
    let ws = slice_bytes(text, e, next);
    let wc = chars_of(word.as_str());
    let tag = if is_quote_mark(wc.as_slice()) {
        let (before, _) = text.split_at(s);
        proof {
            encode_utf8_decode_utf8(before@);
        }
        let bc = chars_of(before);
        if bc.len() == 0 || is_whitespace(bc[bc.len() - 1]) {
            String::from_str("``")
        } else {
            String::from_str("''")
        }
    } else {
        map_tag(word.as_str())
    };
    let cs = char_offset_of(text, s);
    let ce = char_offset_of(text, e);
    (InternalMToken::new(word, tag, ws), (cs, ce))
}

/// Tag each `read` the sentence decides (see `refinable_read`), in order.
fn refine_reads(tokens: &mut Vec<InternalMToken>)
    ensures
        final(tokens).deep_view() == refined_reads(old(tokens).deep_view(), old(tokens)@.len() as int),
{
    let ghost ts0 = tokens.deep_view();
    let n = tokens.len();
    let mut i: usize = 0;
    while i < n
        invariant
            n == tokens@.len(),
            n == ts0.len(),
            i <= n,
            tokens.deep_view() == refined_reads(ts0, i as int),
        decreases n - i,
    {
        let ghost before = tokens.deep_view();
        assert(tokens@[i as int]@ == before[i as int]);
        let lower = lower_of(&tokens[i]);
        let tc = chars_of(tokens[i].tag.as_str());
        if chars_eq_str(lower.as_slice(), "read") && (starts_with_str(tc.as_slice(), "VB") || str_eq(
            tokens[i].tag.as_str(),
            "VERB",
        ) || str_eq(tokens[i].tag.as_str(), "NN")) {
            var_refine_read(tokens.as_mut_slice(), i);
        }
        assert(tokens@.len() == tokens.deep_view().len());
        i += 1;
    }
}

/// Apply one feature to the tokens whose char ranges (`slices`) it meets.
fn apply_feature(tokens: &mut Vec<InternalMToken>, slices: &Vec<(usize, usize)>, f: &FeatureSpan)
    requires
        old(tokens)@.len() == slices@.len(),
    ensures
        final(tokens).deep_view() == featured(old(tokens).deep_view(), f@, int_ranges(slices@)),
{
    let ghost ts0 = tokens.deep_view();
    let ghost cr = int_ranges(slices@);
    let n = tokens.len();
    let mut seen = false;
    let mut k: usize = 0;
    while k < n
        invariant
            n == tokens@.len(),
            n == ts0.len(),
            n == slices@.len(),
            cr == int_ranges(slices@),
            k <= n,
            seen == !first_covered(f@, cr, k as int),
            forall|j: int| 0 <= j < k ==> #[trigger] tokens@[j]@ == featured_token(ts0[j], f@, cr, j),
            forall|j: int| k <= j < n ==> #[trigger] tokens@[j]@ == ts0[j],
        decreases n - k,
    {
        let (a, b) = slices[k];
        assert(cr[k as int] == (a as int, b as int));
        if a < f.range.end && b > f.range.start {
            assert(covers(f@, cr[k as int]));
            assert(tokens@[k as int]@ == ts0[k as int]);
            let mut t = tokens[k].clone_token();
            match &f.kind {
                FeatureSpanKind::Stress(w) => {
                    t.underscore.stress = Some(*w);
                },
                FeatureSpanKind::PhonemeOverride(v) => {
                    t.underscore.is_head = !seen;
                    t.phonemes = Some(
                        if !seen {
                            String::from_str(v.as_str())
                        } else {
                            String::new()
                        },
                    );
                    t.underscore.rating = Some(5);
                },
                FeatureSpanKind::NumFlags(fl) => {
                    t.underscore.num_flags = String::from_str(fl.as_str());
                },
            }
            assert(t@ == featured_token(ts0[k as int], f@, cr, k as int));
            tokens.set(k, t);
            seen = true;
        } else {
            assert(!covers(f@, cr[k as int]));
        }
        k += 1;
    }
    assert(tokens.deep_view() =~= featured(ts0, f@, cr));
}

/// Split `text` into tokens (see `TOKEN_PATTERN`), each with the whitespace after
/// it and a tag; tag each `read` by its sentence; then apply the features, in
/// order, to the tokens whose chars they meet. Nothing comes out if the token
/// pattern does not compile.
pub fn tokenize_and_tag(text: &str, feature_spans: &[FeatureSpan]) -> (r: Vec<InternalMToken>)
    ensures
        regex_compiles(TOKEN_PATTERN@) ==> r.deep_view() == tagged_tokens(text@, span_views(feature_spans@)),
        !regex_compiles(TOKEN_PATTERN@) ==> r@.len() == 0,
{
    let re = match compile_regex(TOKEN_PATTERN) {
        Ok(re) => re,
        Err(_) => return Vec::new(),
    };
    let rs = find_ranges(&re, text);
    let ghost tr = token_ranges(text@);
    let ghost fresh = fresh_tokens(text@, tr);
    let ghost crs = char_ranges(text@, tr);
    let mut tokens: Vec<InternalMToken> = Vec::new();
    let mut slices: Vec<(usize, usize)> = Vec::new();
    let mut k: usize = 0;
    while k < rs.len()
        invariant
            regex_pattern(re) == TOKEN_PATTERN@,
            int_ranges(rs@) == tr,
            tr == token_ranges(text@),
            fresh == fresh_tokens(text@, tr),
            crs == char_ranges(text@, tr),
            ordered_ranges(text@, int_ranges(rs@)),
            k <= rs@.len(),
            tokens@.len() == k,
            slices@.len() == k,
            forall|j: int| 0 <= j < k ==> #[trigger] tokens@[j]@ == fresh[j],
            int_ranges(slices@) == crs.take(k as int),
        decreases rs@.len() - k,
    {
        let (t, c) = fresh_token_at(&re, text, &rs, k);
        assert(int_ranges(rs@)[k as int] == (rs@[k as int].0 as int, rs@[k as int].1 as int));
        assert(crs[k as int] == (char_offset(text@, tr[k as int].0), char_offset(text@, tr[k as int].1)));
        tokens.push(t);
        slices.push(c);
        assert(int_ranges(slices@) =~= crs.take(k + 1));
        k += 1;
    }
    assert(tokens.deep_view() =~= fresh);
    assert(crs.take(k as int) =~= crs);
    refine_reads(&mut tokens);
    proof {
        lemma_refined_reads_len(fresh, tr.len() as int);
    }
    assert(tokens@.len() == tokens.deep_view().len());
    let ghost refined = tokens.deep_view();
    let mut fi: usize = 0;
    while fi < feature_spans.len()
        invariant
            tokens@.len() == slices@.len(),
            int_ranges(slices@) == crs,
            fi <= feature_spans@.len(),
            tokens.deep_view() == all_featured(refined, span_views(feature_spans@), crs, fi as int),
        decreases feature_spans@.len() - fi,
    {
        apply_feature(&mut tokens, &slices, &feature_spans[fi]);
        assert(tokens@.len() == tokens.deep_view().len());
        fi += 1;
    }
    tokens
}

/// An ASCII letter.
pub open spec fn ascii_letter(c: char) -> bool {
    ('a' <= c <= 'z') || ('A' <= c <= 'Z')
}

/// A word of ASCII letters.
pub open spec fn letter_word(w: Seq<char>) -> bool {
    w.len() > 0 && forall|k: int| 0 <= k < w.len() ==> #[trigger] ascii_letter(w[k])
}

/// The prepositions: in, on, at, by, for, with, about, against, between, into,
/// through, during, before, after, above, below, from, of.
pub open spec fn listed_preposition(l: Seq<char>) -> bool {
    l == "in"@ || l == "on"@ || l == "at"@ || l == "by"@ || l == "for"@ || l == "with"@ || l == "about"@ || l == "against"@ || l == "between"@ || l == "into"@ || l == "through"@ || l == "during"@ || l == "before"@ || l == "after"@ || l == "above"@ || l == "below"@ || l == "from"@ || l == "of"@
}

proof fn lemma_letter_word_is_no_mark(w: Seq<char>)
    requires
        letter_word(w),
    ensures
        !(w == "$"@ || w == "\u{a3}"@ || w == "\u{20ac}"@ || w == "#"@ || w == ","@ || w == "."@ || w == "!"@
            || w == "?"@ || w == ":"@ || w == ";"@ || w == "-"@ || w == "\u{2013}"@ || w == "\u{2014}"@
            || w == "("@ || w == ")"@),
        !quote_mark(w),
        !all_ascii_punctuation(w),
{
    reveal_strlit("$");
    reveal_strlit("\u{a3}");
    reveal_strlit("\u{20ac}");
    reveal_strlit("#");
    reveal_strlit(",");
    reveal_strlit(".");
    reveal_strlit("!");
    reveal_strlit("?");
    reveal_strlit(":");
    reveal_strlit(";");
    reveal_strlit("-");
    reveal_strlit("\u{2013}");
    reveal_strlit("\u{2014}");
    reveal_strlit("(");
    reveal_strlit(")");
    reveal_strlit("\"");
    reveal_strlit("\u{201c}");
    reveal_strlit("\u{201d}");
    reveal_strlit("\u{2018}");
    reveal_strlit("\u{2019}");
    reveal_strlit("'");
    reveal_strlit("`");
    assert(ascii_letter(w[0]));
    assert(w != "$"@) by {
        if w == "$"@ {
            assert(w[0] == "$"@[0]);
        }
    }
    assert(w != "\u{a3}"@) by {
        if w == "\u{a3}"@ {
            assert(w[0] == "\u{a3}"@[0]);
        }
    }
    assert(w != "\u{20ac}"@) by {
        if w == "\u{20ac}"@ {
            assert(w[0] == "\u{20ac}"@[0]);
        }
    }
    assert(w != "#"@) by {
        if w == "#"@ {
            assert(w[0] == "#"@[0]);
        }
    }
    assert(w != ","@) by {
        if w == ","@ {
            assert(w[0] == ","@[0]);
        }
    }
    assert(w != "."@) by {
        if w == "."@ {
            assert(w[0] == "."@[0]);
        }
    }
    assert(w != "!"@) by {
        if w == "!"@ {
            assert(w[0] == "!"@[0]);
        }
    }
    assert(w != "?"@) by {
        if w == "?"@ {
            assert(w[0] == "?"@[0]);
        }
    }
    assert(w != ":"@) by {
        if w == ":"@ {
            assert(w[0] == ":"@[0]);
        }
    }
    assert(w != ";"@) by {
        if w == ";"@ {
            assert(w[0] == ";"@[0]);
        }
    }
    assert(w != "-"@) by {
        if w == "-"@ {
            assert(w[0] == "-"@[0]);
        }
    }
    assert(w != "\u{2013}"@) by {
        if w == "\u{2013}"@ {
            assert(w[0] == "\u{2013}"@[0]);
        }
    }
    assert(w != "\u{2014}"@) by {
        if w == "\u{2014}"@ {
            assert(w[0] == "\u{2014}"@[0]);
        }
    }
    assert(w != "("@) by {
        if w == "("@ {
            assert(w[0] == "("@[0]);
        }
    }
    assert(w != ")"@) by {
        if w == ")"@ {
            assert(w[0] == ")"@[0]);
        }
    }
    assert(w != "\""@) by {
        if w == "\""@ {
            assert(w[0] == "\""@[0]);
        }
    }
    assert(w != "\u{201c}"@) by {
        if w == "\u{201c}"@ {
            assert(w[0] == "\u{201c}"@[0]);
        }
    }
    assert(w != "\u{201d}"@) by {
        if w == "\u{201d}"@ {
            assert(w[0] == "\u{201d}"@[0]);
        }
    }
    assert(w != "\u{2018}"@) by {
        if w == "\u{2018}"@ {
            assert(w[0] == "\u{2018}"@[0]);
        }
    }
    assert(w != "\u{2019}"@) by {
        if w == "\u{2019}"@ {
            assert(w[0] == "\u{2019}"@[0]);
        }
    }
    assert(w != "'"@) by {
        if w == "'"@ {
            assert(w[0] == "'"@[0]);
        }
    }
    assert(w != "`"@) by {
        if w == "`"@ {
            assert(w[0] == "`"@[0]);
        }
    }
    assert(!ascii_punctuation(w[0]));
}

proof fn lemma_preposition_is_no_earlier_class(p: Seq<char>)
    requires
        listed_preposition(p),
    ensures
        !determiner(p),
        !pronoun(p),
        p != "to"@,
        preposition(p),
{
    if p == "in"@ {
        reveal_strlit("in");
        reveal_strlit("the");
        reveal_strlit("a");
        reveal_strlit("an");
        reveal_strlit("this");
        reveal_strlit("that");
        reveal_strlit("these");
        reveal_strlit("those");
        reveal_strlit("i");
        reveal_strlit("me");
        reveal_strlit("my");
        reveal_strlit("myself");
        reveal_strlit("you");
        reveal_strlit("your");
        reveal_strlit("yours");
        reveal_strlit("yourself");
        reveal_strlit("he");
        reveal_strlit("him");
        reveal_strlit("his");
        reveal_strlit("himself");
        reveal_strlit("she");
        reveal_strlit("her");
        reveal_strlit("hers");
        reveal_strlit("herself");
        reveal_strlit("it");
        reveal_strlit("its");
        reveal_strlit("itself");
        reveal_strlit("we");
        reveal_strlit("us");
        reveal_strlit("our");
        reveal_strlit("ours");
        reveal_strlit("ourselves");
        reveal_strlit("they");
        reveal_strlit("them");
        reveal_strlit("their");
        reveal_strlit("theirs");
        reveal_strlit("themselves");
        reveal_strlit("who");
        reveal_strlit("whom");
        reveal_strlit("whose");
        reveal_strlit("which");
        reveal_strlit("what");
        reveal_strlit("to");
        assert("in"@ != "the"@) by { assert("in"@.len() != "the"@.len()); }
        assert("in"@ != "a"@) by { assert("in"@.len() != "a"@.len()); }
        assert("in"@ != "an"@) by { assert("in"@[0] != "an"@[0]); }
        assert("in"@ != "this"@) by { assert("in"@.len() != "this"@.len()); }
        assert("in"@ != "that"@) by { assert("in"@.len() != "that"@.len()); }
        assert("in"@ != "these"@) by { assert("in"@.len() != "these"@.len()); }
        assert("in"@ != "those"@) by { assert("in"@.len() != "those"@.len()); }
        assert("in"@ != "i"@) by { assert("in"@.len() != "i"@.len()); }
        assert("in"@ != "me"@) by { assert("in"@[0] != "me"@[0]); }
        assert("in"@ != "my"@) by { assert("in"@[0] != "my"@[0]); }
        assert("in"@ != "myself"@) by { assert("in"@.len() != "myself"@.len()); }
        assert("in"@ != "you"@) by { assert("in"@.len() != "you"@.len()); }
        assert("in"@ != "your"@) by { assert("in"@.len() != "your"@.len()); }
        assert("in"@ != "yours"@) by { assert("in"@.len() != "yours"@.len()); }
        assert("in"@ != "yourself"@) by { assert("in"@.len() != "yourself"@.len()); }
        assert("in"@ != "he"@) by { assert("in"@[0] != "he"@[0]); }
        assert("in"@ != "him"@) by { assert("in"@.len() != "him"@.len()); }
        assert("in"@ != "his"@) by { assert("in"@.len() != "his"@.len()); }
        assert("in"@ != "himself"@) by { assert("in"@.len() != "himself"@.len()); }
        assert("in"@ != "she"@) by { assert("in"@.len() != "she"@.len()); }
        assert("in"@ != "her"@) by { assert("in"@.len() != "her"@.len()); }
        assert("in"@ != "hers"@) by { assert("in"@.len() != "hers"@.len()); }
        assert("in"@ != "herself"@) by { assert("in"@.len() != "herself"@.len()); }
        assert("in"@ != "it"@) by { assert("in"@[1] != "it"@[1]); }
        assert("in"@ != "its"@) by { assert("in"@.len() != "its"@.len()); }
        assert("in"@ != "itself"@) by { assert("in"@.len() != "itself"@.len()); }
        assert("in"@ != "we"@) by { assert("in"@[0] != "we"@[0]); }
        assert("in"@ != "us"@) by { assert("in"@[0] != "us"@[0]); }
        assert("in"@ != "our"@) by { assert("in"@.len() != "our"@.len()); }
        assert("in"@ != "ours"@) by { assert("in"@.len() != "ours"@.len()); }
        assert("in"@ != "ourselves"@) by { assert("in"@.len() != "ourselves"@.len()); }
        assert("in"@ != "they"@) by { assert("in"@.len() != "they"@.len()); }
        assert("in"@ != "them"@) by { assert("in"@.len() != "them"@.len()); }
        assert("in"@ != "their"@) by { assert("in"@.len() != "their"@.len()); }
        assert("in"@ != "theirs"@) by { assert("in"@.len() != "theirs"@.len()); }
        assert("in"@ != "themselves"@) by { assert("in"@.len() != "themselves"@.len()); }
        assert("in"@ != "who"@) by { assert("in"@.len() != "who"@.len()); }
        assert("in"@ != "whom"@) by { assert("in"@.len() != "whom"@.len()); }
        assert("in"@ != "whose"@) by { assert("in"@.len() != "whose"@.len()); }
        assert("in"@ != "which"@) by { assert("in"@.len() != "which"@.len()); }
        assert("in"@ != "what"@) by { assert("in"@.len() != "what"@.len()); }
        assert("in"@ != "to"@) by { assert("in"@[0] != "to"@[0]); }
    } else if p == "on"@ {
        reveal_strlit("on");
        reveal_strlit("the");
        reveal_strlit("a");
        reveal_strlit("an");
        reveal_strlit("this");
        reveal_strlit("that");
        reveal_strlit("these");
        reveal_strlit("those");
        reveal_strlit("i");
        reveal_strlit("me");
        reveal_strlit("my");
        reveal_strlit("myself");
        reveal_strlit("you");
        reveal_strlit("your");
        reveal_strlit("yours");
        reveal_strlit("yourself");
        reveal_strlit("he");
        reveal_strlit("him");
        reveal_strlit("his");
        reveal_strlit("himself");
        reveal_strlit("she");
        reveal_strlit("her");
        reveal_strlit("hers");
        reveal_strlit("herself");
        reveal_strlit("it");
        reveal_strlit("its");
        reveal_strlit("itself");
        reveal_strlit("we");
        reveal_strlit("us");
        reveal_strlit("our");
        reveal_strlit("ours");
        reveal_strlit("ourselves");
        reveal_strlit("they");
        reveal_strlit("them");
        reveal_strlit("their");
        reveal_strlit("theirs");
        reveal_strlit("themselves");
        reveal_strlit("who");
        reveal_strlit("whom");
        reveal_strlit("whose");
        reveal_strlit("which");
        reveal_strlit("what");
        reveal_strlit("to");
        assert("on"@ != "the"@) by { assert("on"@.len() != "the"@.len()); }
        assert("on"@ != "a"@) by { assert("on"@.len() != "a"@.len()); }
        assert("on"@ != "an"@) by { assert("on"@[0] != "an"@[0]); }
        assert("on"@ != "this"@) by { assert("on"@.len() != "this"@.len()); }
        assert("on"@ != "that"@) by { assert("on"@.len() != "that"@.len()); }
        assert("on"@ != "these"@) by { assert("on"@.len() != "these"@.len()); }
        assert("on"@ != "those"@) by { assert("on"@.len() != "those"@.len()); }
        assert("on"@ != "i"@) by { assert("on"@.len() != "i"@.len()); }
        assert("on"@ != "me"@) by { assert("on"@[0] != "me"@[0]); }
        assert("on"@ != "my"@) by { assert("on"@[0] != "my"@[0]); }
        assert("on"@ != "myself"@) by { assert("on"@.len() != "myself"@.len()); }
        assert("on"@ != "you"@) by { assert("on"@.len() != "you"@.len()); }
        assert("on"@ != "your"@) by { assert("on"@.len() != "your"@.len()); }
        assert("on"@ != "yours"@) by { assert("on"@.len() != "yours"@.len()); }
        assert("on"@ != "yourself"@) by { assert("on"@.len() != "yourself"@.len()); }
        assert("on"@ != "he"@) by { assert("on"@[0] != "he"@[0]); }
        assert("on"@ != "him"@) by { assert("on"@.len() != "him"@.len()); }
        assert("on"@ != "his"@) by { assert("on"@.len() != "his"@.len()); }
        assert("on"@ != "himself"@) by { assert("on"@.len() != "himself"@.len()); }
        assert("on"@ != "she"@) by { assert("on"@.len() != "she"@.len()); }
        assert("on"@ != "her"@) by { assert("on"@.len() != "her"@.len()); }
        assert("on"@ != "hers"@) by { assert("on"@.len() != "hers"@.len()); }
        assert("on"@ != "herself"@) by { assert("on"@.len() != "herself"@.len()); }
        assert("on"@ != "it"@) by { assert("on"@[0] != "it"@[0]); }
        assert("on"@ != "its"@) by { assert("on"@.len() != "its"@.len()); }
        assert("on"@ != "itself"@) by { assert("on"@.len() != "itself"@.len()); }
        assert("on"@ != "we"@) by { assert("on"@[0] != "we"@[0]); }
        assert("on"@ != "us"@) by { assert("on"@[0] != "us"@[0]); }
        assert("on"@ != "our"@) by { assert("on"@.len() != "our"@.len()); }
        assert("on"@ != "ours"@) by { assert("on"@.len() != "ours"@.len()); }
        assert("on"@ != "ourselves"@) by { assert("on"@.len() != "ourselves"@.len()); }
        assert("on"@ != "they"@) by { assert("on"@.len() != "they"@.len()); }
        assert("on"@ != "them"@) by { assert("on"@.len() != "them"@.len()); }
        assert("on"@ != "their"@) by { assert("on"@.len() != "their"@.len()); }
        assert("on"@ != "theirs"@) by { assert("on"@.len() != "theirs"@.len()); }
        assert("on"@ != "themselves"@) by { assert("on"@.len() != "themselves"@.len()); }
        assert("on"@ != "who"@) by { assert("on"@.len() != "who"@.len()); }
        assert("on"@ != "whom"@) by { assert("on"@.len() != "whom"@.len()); }
        assert("on"@ != "whose"@) by { assert("on"@.len() != "whose"@.len()); }
        assert("on"@ != "which"@) by { assert("on"@.len() != "which"@.len()); }
        assert("on"@ != "what"@) by { assert("on"@.len() != "what"@.len()); }
        assert("on"@ != "to"@) by { assert("on"@[0] != "to"@[0]); }
    } else if p == "at"@ {
        reveal_strlit("at");
        reveal_strlit("the");
        reveal_strlit("a");
        reveal_strlit("an");
        reveal_strlit("this");
        reveal_strlit("that");
        reveal_strlit("these");
        reveal_strlit("those");
        reveal_strlit("i");
        reveal_strlit("me");
        reveal_strlit("my");
        reveal_strlit("myself");
        reveal_strlit("you");
        reveal_strlit("your");
        reveal_strlit("yours");
        reveal_strlit("yourself");
        reveal_strlit("he");
        reveal_strlit("him");
        reveal_strlit("his");
        reveal_strlit("himself");
        reveal_strlit("she");
        reveal_strlit("her");
        reveal_strlit("hers");
        reveal_strlit("herself");
        reveal_strlit("it");
        reveal_strlit("its");
        reveal_strlit("itself");
        reveal_strlit("we");
        reveal_strlit("us");
        reveal_strlit("our");
        reveal_strlit("ours");
        reveal_strlit("ourselves");
        reveal_strlit("they");
        reveal_strlit("them");
        reveal_strlit("their");
        reveal_strlit("theirs");
        reveal_strlit("themselves");
        reveal_strlit("who");
        reveal_strlit("whom");
        reveal_strlit("whose");
        reveal_strlit("which");
        reveal_strlit("what");
        reveal_strlit("to");
        assert("at"@ != "the"@) by { assert("at"@.len() != "the"@.len()); }
        assert("at"@ != "a"@) by { assert("at"@.len() != "a"@.len()); }
        assert("at"@ != "an"@) by { assert("at"@[1] != "an"@[1]); }
        assert("at"@ != "this"@) by { assert("at"@.len() != "this"@.len()); }
        assert("at"@ != "that"@) by { assert("at"@.len() != "that"@.len()); }
        assert("at"@ != "these"@) by { assert("at"@.len() != "these"@.len()); }
        assert("at"@ != "those"@) by { assert("at"@.len() != "those"@.len()); }
        assert("at"@ != "i"@) by { assert("at"@.len() != "i"@.len()); }
        assert("at"@ != "me"@) by { assert("at"@[0] != "me"@[0]); }
        assert("at"@ != "my"@) by { assert("at"@[0] != "my"@[0]); }
        assert("at"@ != "myself"@) by { assert("at"@.len() != "myself"@.len()); }
        assert("at"@ != "you"@) by { assert("at"@.len() != "you"@.len()); }
        assert("at"@ != "your"@) by { assert("at"@.len() != "your"@.len()); }
        assert("at"@ != "yours"@) by { assert("at"@.len() != "yours"@.len()); }
        assert("at"@ != "yourself"@) by { assert("at"@.len() != "yourself"@.len()); }
        assert("at"@ != "he"@) by { assert("at"@[0] != "he"@[0]); }
        assert("at"@ != "him"@) by { assert("at"@.len() != "him"@.len()); }
        assert("at"@ != "his"@) by { assert("at"@.len() != "his"@.len()); }
        assert("at"@ != "himself"@) by { assert("at"@.len() != "himself"@.len()); }
        assert("at"@ != "she"@) by { assert("at"@.len() != "she"@.len()); }
        assert("at"@ != "her"@) by { assert("at"@.len() != "her"@.len()); }
        assert("at"@ != "hers"@) by { assert("at"@.len() != "hers"@.len()); }
        assert("at"@ != "herself"@) by { assert("at"@.len() != "herself"@.len()); }
        assert("at"@ != "it"@) by { assert("at"@[0] != "it"@[0]); }
        assert("at"@ != "its"@) by { assert("at"@.len() != "its"@.len()); }
        assert("at"@ != "itself"@) by { assert("at"@.len() != "itself"@.len()); }
        assert("at"@ != "we"@) by { assert("at"@[0] != "we"@[0]); }
        assert("at"@ != "us"@) by { assert("at"@[0] != "us"@[0]); }
        assert("at"@ != "our"@) by { assert("at"@.len() != "our"@.len()); }
        assert("at"@ != "ours"@) by { assert("at"@.len() != "ours"@.len()); }
        assert("at"@ != "ourselves"@) by { assert("at"@.len() != "ourselves"@.len()); }
        assert("at"@ != "they"@) by { assert("at"@.len() != "they"@.len()); }
        assert("at"@ != "them"@) by { assert("at"@.len() != "them"@.len()); }
        assert("at"@ != "their"@) by { assert("at"@.len() != "their"@.len()); }
        assert("at"@ != "theirs"@) by { assert("at"@.len() != "theirs"@.len()); }
        assert("at"@ != "themselves"@) by { assert("at"@.len() != "themselves"@.len()); }
        assert("at"@ != "who"@) by { assert("at"@.len() != "who"@.len()); }
        assert("at"@ != "whom"@) by { assert("at"@.len() != "whom"@.len()); }
        assert("at"@ != "whose"@) by { assert("at"@.len() != "whose"@.len()); }
        assert("at"@ != "which"@) by { assert("at"@.len() != "which"@.len()); }
        assert("at"@ != "what"@) by { assert("at"@.len() != "what"@.len()); }
        assert("at"@ != "to"@) by { assert("at"@[0] != "to"@[0]); }
    } else if p == "by"@ {
        reveal_strlit("by");
        reveal_strlit("the");
        reveal_strlit("a");
        reveal_strlit("an");
        reveal_strlit("this");
        reveal_strlit("that");
        reveal_strlit("these");
        reveal_strlit("those");
        reveal_strlit("i");
        reveal_strlit("me");
        reveal_strlit("my");
        reveal_strlit("myself");
        reveal_strlit("you");
        reveal_strlit("your");
        reveal_strlit("yours");
        reveal_strlit("yourself");
        reveal_strlit("he");
        reveal_strlit("him");
        reveal_strlit("his");
        reveal_strlit("himself");
        reveal_strlit("she");
        reveal_strlit("her");
        reveal_strlit("hers");
        reveal_strlit("herself");
        reveal_strlit("it");
        reveal_strlit("its");
        reveal_strlit("itself");
        reveal_strlit("we");
        reveal_strlit("us");
        reveal_strlit("our");
        reveal_strlit("ours");
        reveal_strlit("ourselves");
        reveal_strlit("they");
        reveal_strlit("them");
        reveal_strlit("their");
        reveal_strlit("theirs");
        reveal_strlit("themselves");
        reveal_strlit("who");
        reveal_strlit("whom");
        reveal_strlit("whose");
        reveal_strlit("which");
        reveal_strlit("what");
        reveal_strlit("to");
        assert("by"@ != "the"@) by { assert("by"@.len() != "the"@.len()); }
        assert("by"@ != "a"@) by { assert("by"@.len() != "a"@.len()); }
        assert("by"@ != "an"@) by { assert("by"@[0] != "an"@[0]); }
        assert("by"@ != "this"@) by { assert("by"@.len() != "this"@.len()); }
        assert("by"@ != "that"@) by { assert("by"@.len() != "that"@.len()); }
        assert("by"@ != "these"@) by { assert("by"@.len() != "these"@.len()); }
        assert("by"@ != "those"@) by { assert("by"@.len() != "those"@.len()); }
        assert("by"@ != "i"@) by { assert("by"@.len() != "i"@.len()); }
        assert("by"@ != "me"@) by { assert("by"@[0] != "me"@[0]); }
        assert("by"@ != "my"@) by { assert("by"@[0] != "my"@[0]); }
        assert("by"@ != "myself"@) by { assert("by"@.len() != "myself"@.len()); }
        assert("by"@ != "you"@) by { assert("by"@.len() != "you"@.len()); }
        assert("by"@ != "your"@) by { assert("by"@.len() != "your"@.len()); }
        assert("by"@ != "yours"@) by { assert("by"@.len() != "yours"@.len()); }
        assert("by"@ != "yourself"@) by { assert("by"@.len() != "yourself"@.len()); }
        assert("by"@ != "he"@) by { assert("by"@[0] != "he"@[0]); }
        assert("by"@ != "him"@) by { assert("by"@.len() != "him"@.len()); }
        assert("by"@ != "his"@) by { assert("by"@.len() != "his"@.len()); }
        assert("by"@ != "himself"@) by { assert("by"@.len() != "himself"@.len()); }
        assert("by"@ != "she"@) by { assert("by"@.len() != "she"@.len()); }
        assert("by"@ != "her"@) by { assert("by"@.len() != "her"@.len()); }
        assert("by"@ != "hers"@) by { assert("by"@.len() != "hers"@.len()); }
        assert("by"@ != "herself"@) by { assert("by"@.len() != "herself"@.len()); }
        assert("by"@ != "it"@) by { assert("by"@[0] != "it"@[0]); }
        assert("by"@ != "its"@) by { assert("by"@.len() != "its"@.len()); }
        assert("by"@ != "itself"@) by { assert("by"@.len() != "itself"@.len()); }
        assert("by"@ != "we"@) by { assert("by"@[0] != "we"@[0]); }
        assert("by"@ != "us"@) by { assert("by"@[0] != "us"@[0]); }
        assert("by"@ != "our"@) by { assert("by"@.len() != "our"@.len()); }
        assert("by"@ != "ours"@) by { assert("by"@.len() != "ours"@.len()); }
        assert("by"@ != "ourselves"@) by { assert("by"@.len() != "ourselves"@.len()); }
        assert("by"@ != "they"@) by { assert("by"@.len() != "they"@.len()); }
        assert("by"@ != "them"@) by { assert("by"@.len() != "them"@.len()); }
        assert("by"@ != "their"@) by { assert("by"@.len() != "their"@.len()); }
        assert("by"@ != "theirs"@) by { assert("by"@.len() != "theirs"@.len()); }
        assert("by"@ != "themselves"@) by { assert("by"@.len() != "themselves"@.len()); }
        assert("by"@ != "who"@) by { assert("by"@.len() != "who"@.len()); }
        assert("by"@ != "whom"@) by { assert("by"@.len() != "whom"@.len()); }
        assert("by"@ != "whose"@) by { assert("by"@.len() != "whose"@.len()); }
        assert("by"@ != "which"@) by { assert("by"@.len() != "which"@.len()); }
        assert("by"@ != "what"@) by { assert("by"@.len() != "what"@.len()); }
        assert("by"@ != "to"@) by { assert("by"@[0] != "to"@[0]); }
    } else if p == "for"@ {
        reveal_strlit("for");
        reveal_strlit("the");
        reveal_strlit("a");
        reveal_strlit("an");
        reveal_strlit("this");
        reveal_strlit("that");
        reveal_strlit("these");
        reveal_strlit("those");
        reveal_strlit("i");
        reveal_strlit("me");
        reveal_strlit("my");
        reveal_strlit("myself");
        reveal_strlit("you");
        reveal_strlit("your");
        reveal_strlit("yours");
        reveal_strlit("yourself");
        reveal_strlit("he");
        reveal_strlit("him");
        reveal_strlit("his");
        reveal_strlit("himself");
        reveal_strlit("she");
        reveal_strlit("her");
        reveal_strlit("hers");
        reveal_strlit("herself");
        reveal_strlit("it");
        reveal_strlit("its");
        reveal_strlit("itself");
        reveal_strlit("we");
        reveal_strlit("us");
        reveal_strlit("our");
        reveal_strlit("ours");
        reveal_strlit("ourselves");
        reveal_strlit("they");
        reveal_strlit("them");
        reveal_strlit("their");
        reveal_strlit("theirs");
        reveal_strlit("themselves");
        reveal_strlit("who");
        reveal_strlit("whom");
        reveal_strlit("whose");
        reveal_strlit("which");
        reveal_strlit("what");
        reveal_strlit("to");
        assert("for"@ != "the"@) by { assert("for"@[0] != "the"@[0]); }
        assert("for"@ != "a"@) by { assert("for"@.len() != "a"@.len()); }
        assert("for"@ != "an"@) by { assert("for"@.len() != "an"@.len()); }
        assert("for"@ != "this"@) by { assert("for"@.len() != "this"@.len()); }
        assert("for"@ != "that"@) by { assert("for"@.len() != "that"@.len()); }
        assert("for"@ != "these"@) by { assert("for"@.len() != "these"@.len()); }
        assert("for"@ != "those"@) by { assert("for"@.len() != "those"@.len()); }
        assert("for"@ != "i"@) by { assert("for"@.len() != "i"@.len()); }
        assert("for"@ != "me"@) by { assert("for"@.len() != "me"@.len()); }
        assert("for"@ != "my"@) by { assert("for"@.len() != "my"@.len()); }
        assert("for"@ != "myself"@) by { assert("for"@.len() != "myself"@.len()); }
        assert("for"@ != "you"@) by { assert("for"@[0] != "you"@[0]); }
        assert("for"@ != "your"@) by { assert("for"@.len() != "your"@.len()); }
        assert("for"@ != "yours"@) by { assert("for"@.len() != "yours"@.len()); }
        assert("for"@ != "yourself"@) by { assert("for"@.len() != "yourself"@.len()); }
        assert("for"@ != "he"@) by { assert("for"@.len() != "he"@.len()); }
        assert("for"@ != "him"@) by { assert("for"@[0] != "him"@[0]); }
        assert("for"@ != "his"@) by { assert("for"@[0] != "his"@[0]); }
        assert("for"@ != "himself"@) by { assert("for"@.len() != "himself"@.len()); }
        assert("for"@ != "she"@) by { assert("for"@[0] != "she"@[0]); }
        assert("for"@ != "her"@) by { assert("for"@[0] != "her"@[0]); }
        assert("for"@ != "hers"@) by { assert("for"@.len() != "hers"@.len()); }
        assert("for"@ != "herself"@) by { assert("for"@.len() != "herself"@.len()); }
        assert("for"@ != "it"@) by { assert("for"@.len() != "it"@.len()); }
        assert("for"@ != "its"@) by { assert("for"@[0] != "its"@[0]); }
        assert("for"@ != "itself"@) by { assert("for"@.len() != "itself"@.len()); }
        assert("for"@ != "we"@) by { assert("for"@.len() != "we"@.len()); }
        assert("for"@ != "us"@) by { assert("for"@.len() != "us"@.len()); }
        assert("for"@ != "our"@) by { assert("for"@[0] != "our"@[0]); }
        assert("for"@ != "ours"@) by { assert("for"@.len() != "ours"@.len()); }
        assert("for"@ != "ourselves"@) by { assert("for"@.len() != "ourselves"@.len()); }
        assert("for"@ != "they"@) by { assert("for"@.len() != "they"@.len()); }
        assert("for"@ != "them"@) by { assert("for"@.len() != "them"@.len()); }
        assert("for"@ != "their"@) by { assert("for"@.len() != "their"@.len()); }
        assert("for"@ != "theirs"@) by { assert("for"@.len() != "theirs"@.len()); }
        assert("for"@ != "themselves"@) by { assert("for"@.len() != "themselves"@.len()); }
        assert("for"@ != "who"@) by { assert("for"@[0] != "who"@[0]); }
        assert("for"@ != "whom"@) by { assert("for"@.len() != "whom"@.len()); }
        assert("for"@ != "whose"@) by { assert("for"@.len() != "whose"@.len()); }
        assert("for"@ != "which"@) by { assert("for"@.len() != "which"@.len()); }
        assert("for"@ != "what"@) by { assert("for"@.len() != "what"@.len()); }
        assert("for"@ != "to"@) by { assert("for"@.len() != "to"@.len()); }
    } else if p == "with"@ {
        reveal_strlit("with");
        reveal_strlit("the");
        reveal_strlit("a");
        reveal_strlit("an");
        reveal_strlit("this");
        reveal_strlit("that");
        reveal_strlit("these");
        reveal_strlit("those");
        reveal_strlit("i");
        reveal_strlit("me");
        reveal_strlit("my");
        reveal_strlit("myself");
        reveal_strlit("you");
        reveal_strlit("your");
        reveal_strlit("yours");
        reveal_strlit("yourself");
        reveal_strlit("he");
        reveal_strlit("him");
        reveal_strlit("his");
        reveal_strlit("himself");
        reveal_strlit("she");
        reveal_strlit("her");
        reveal_strlit("hers");
        reveal_strlit("herself");
        reveal_strlit("it");
        reveal_strlit("its");
        reveal_strlit("itself");
        reveal_strlit("we");
        reveal_strlit("us");
        reveal_strlit("our");
        reveal_strlit("ours");
        reveal_strlit("ourselves");
        reveal_strlit("they");
        reveal_strlit("them");
        reveal_strlit("their");
        reveal_strlit("theirs");
        reveal_strlit("themselves");
        reveal_strlit("who");
        reveal_strlit("whom");
        reveal_strlit("whose");
        reveal_strlit("which");
        reveal_strlit("what");
        reveal_strlit("to");
        assert("with"@ != "the"@) by { assert("with"@.len() != "the"@.len()); }
        assert("with"@ != "a"@) by { assert("with"@.len() != "a"@.len()); }
        assert("with"@ != "an"@) by { assert("with"@.len() != "an"@.len()); }
        assert("with"@ != "this"@) by { assert("with"@[0] != "this"@[0]); }
        assert("with"@ != "that"@) by { assert("with"@[0] != "that"@[0]); }
        assert("with"@ != "these"@) by { assert("with"@.len() != "these"@.len()); }
        assert("with"@ != "those"@) by { assert("with"@.len() != "those"@.len()); }
        assert("with"@ != "i"@) by { assert("with"@.len() != "i"@.len()); }
        assert("with"@ != "me"@) by { assert("with"@.len() != "me"@.len()); }
        assert("with"@ != "my"@) by { assert("with"@.len() != "my"@.len()); }
        assert("with"@ != "myself"@) by { assert("with"@.len() != "myself"@.len()); }
        assert("with"@ != "you"@) by { assert("with"@.len() != "you"@.len()); }
        assert("with"@ != "your"@) by { assert("with"@[0] != "your"@[0]); }
        assert("with"@ != "yours"@) by { assert("with"@.len() != "yours"@.len()); }
        assert("with"@ != "yourself"@) by { assert("with"@.len() != "yourself"@.len()); }
        assert("with"@ != "he"@) by { assert("with"@.len() != "he"@.len()); }
        assert("with"@ != "him"@) by { assert("with"@.len() != "him"@.len()); }
        assert("with"@ != "his"@) by { assert("with"@.len() != "his"@.len()); }
        assert("with"@ != "himself"@) by { assert("with"@.len() != "himself"@.len()); }
        assert("with"@ != "she"@) by { assert("with"@.len() != "she"@.len()); }
        assert("with"@ != "her"@) by { assert("with"@.len() != "her"@.len()); }
        assert("with"@ != "hers"@) by { assert("with"@[0] != "hers"@[0]); }
        assert("with"@ != "herself"@) by { assert("with"@.len() != "herself"@.len()); }
        assert("with"@ != "it"@) by { assert("with"@.len() != "it"@.len()); }
        assert("with"@ != "its"@) by { assert("with"@.len() != "its"@.len()); }
        assert("with"@ != "itself"@) by { assert("with"@.len() != "itself"@.len()); }
        assert("with"@ != "we"@) by { assert("with"@.len() != "we"@.len()); }
        assert("with"@ != "us"@) by { assert("with"@.len() != "us"@.len()); }
        assert("with"@ != "our"@) by { assert("with"@.len() != "our"@.len()); }
        assert("with"@ != "ours"@) by { assert("with"@[0] != "ours"@[0]); }
        assert("with"@ != "ourselves"@) by { assert("with"@.len() != "ourselves"@.len()); }
        assert("with"@ != "they"@) by { assert("with"@[0] != "they"@[0]); }
        assert("with"@ != "them"@) by { assert("with"@[0] != "them"@[0]); }
        assert("with"@ != "their"@) by { assert("with"@.len() != "their"@.len()); }
        assert("with"@ != "theirs"@) by { assert("with"@.len() != "theirs"@.len()); }
        assert("with"@ != "themselves"@) by { assert("with"@.len() != "themselves"@.len()); }
        assert("with"@ != "who"@) by { assert("with"@.len() != "who"@.len()); }
        assert("with"@ != "whom"@) by { assert("with"@[1] != "whom"@[1]); }
        assert("with"@ != "whose"@) by { assert("with"@.len() != "whose"@.len()); }
        assert("with"@ != "which"@) by { assert("with"@.len() != "which"@.len()); }
        assert("with"@ != "what"@) by { assert("with"@[1] != "what"@[1]); }
        assert("with"@ != "to"@) by { assert("with"@.len() != "to"@.len()); }
    } else if p == "about"@ {
        reveal_strlit("about");
        reveal_strlit("the");
        reveal_strlit("a");
        reveal_strlit("an");
        reveal_strlit("this");
        reveal_strlit("that");
        reveal_strlit("these");
        reveal_strlit("those");
        reveal_strlit("i");
        reveal_strlit("me");
        reveal_strlit("my");
        reveal_strlit("myself");
        reveal_strlit("you");
        reveal_strlit("your");
        reveal_strlit("yours");
        reveal_strlit("yourself");
        reveal_strlit("he");
        reveal_strlit("him");
        reveal_strlit("his");
        reveal_strlit("himself");
        reveal_strlit("she");
        reveal_strlit("her");
        reveal_strlit("hers");
        reveal_strlit("herself");
        reveal_strlit("it");
        reveal_strlit("its");
        reveal_strlit("itself");
        reveal_strlit("we");
        reveal_strlit("us");
        reveal_strlit("our");
        reveal_strlit("ours");
        reveal_strlit("ourselves");
        reveal_strlit("they");
        reveal_strlit("them");
        reveal_strlit("their");
        reveal_strlit("theirs");
        reveal_strlit("themselves");
        reveal_strlit("who");
        reveal_strlit("whom");
        reveal_strlit("whose");
        reveal_strlit("which");
        reveal_strlit("what");
        reveal_strlit("to");
        assert("about"@ != "the"@) by { assert("about"@.len() != "the"@.len()); }
        assert("about"@ != "a"@) by { assert("about"@.len() != "a"@.len()); }
        assert("about"@ != "an"@) by { assert("about"@.len() != "an"@.len()); }
        assert("about"@ != "this"@) by { assert("about"@.len() != "this"@.len()); }
        assert("about"@ != "that"@) by { assert("about"@.len() != "that"@.len()); }
        assert("about"@ != "these"@) by { assert("about"@[0] != "these"@[0]); }
        assert("about"@ != "those"@) by { assert("about"@[0] != "those"@[0]); }
        assert("about"@ != "i"@) by { assert("about"@.len() != "i"@.len()); }
        assert("about"@ != "me"@) by { assert("about"@.len() != "me"@.len()); }
        assert("about"@ != "my"@) by { assert("about"@.len() != "my"@.len()); }
        assert("about"@ != "myself"@) by { assert("about"@.len() != "myself"@.len()); }
        assert("about"@ != "you"@) by { assert("about"@.len() != "you"@.len()); }
        assert("about"@ != "your"@) by { assert("about"@.len() != "your"@.len()); }
        assert("about"@ != "yours"@) by { assert("about"@[0] != "yours"@[0]); }
        assert("about"@ != "yourself"@) by { assert("about"@.len() != "yourself"@.len()); }
        assert("about"@ != "he"@) by { assert("about"@.len() != "he"@.len()); }
        assert("about"@ != "him"@) by { assert("about"@.len() != "him"@.len()); }
        assert("about"@ != "his"@) by { assert("about"@.len() != "his"@.len()); }
        assert("about"@ != "himself"@) by { assert("about"@.len() != "himself"@.len()); }
        assert("about"@ != "she"@) by { assert("about"@.len() != "she"@.len()); }
        assert("about"@ != "her"@) by { assert("about"@.len() != "her"@.len()); }
        assert("about"@ != "hers"@) by { assert("about"@.len() != "hers"@.len()); }
        assert("about"@ != "herself"@) by { assert("about"@.len() != "herself"@.len()); }
        assert("about"@ != "it"@) by { assert("about"@.len() != "it"@.len()); }
        assert("about"@ != "its"@) by { assert("about"@.len() != "its"@.len()); }
        assert("about"@ != "itself"@) by { assert("about"@.len() != "itself"@.len()); }
        assert("about"@ != "we"@) by { assert("about"@.len() != "we"@.len()); }
        assert("about"@ != "us"@) by { assert("about"@.len() != "us"@.len()); }
        assert("about"@ != "our"@) by { assert("about"@.len() != "our"@.len()); }
        assert("about"@ != "ours"@) by { assert("about"@.len() != "ours"@.len()); }
        assert("about"@ != "ourselves"@) by { assert("about"@.len() != "ourselves"@.len()); }
        assert("about"@ != "they"@) by { assert("about"@.len() != "they"@.len()); }
        assert("about"@ != "them"@) by { assert("about"@.len() != "them"@.len()); }
        assert("about"@ != "their"@) by { assert("about"@[0] != "their"@[0]); }
        assert("about"@ != "theirs"@) by { assert("about"@.len() != "theirs"@.len()); }
        assert("about"@ != "themselves"@) by { assert("about"@.len() != "themselves"@.len()); }
        assert("about"@ != "who"@) by { assert("about"@.len() != "who"@.len()); }
        assert("about"@ != "whom"@) by { assert("about"@.len() != "whom"@.len()); }
        assert("about"@ != "whose"@) by { assert("about"@[0] != "whose"@[0]); }
        assert("about"@ != "which"@) by { assert("about"@[0] != "which"@[0]); }
        assert("about"@ != "what"@) by { assert("about"@.len() != "what"@.len()); }
        assert("about"@ != "to"@) by { assert("about"@.len() != "to"@.len()); }
    } else if p == "against"@ {
        reveal_strlit("against");
        reveal_strlit("the");
        reveal_strlit("a");
        reveal_strlit("an");
        reveal_strlit("this");
        reveal_strlit("that");
        reveal_strlit("these");
        reveal_strlit("those");
        reveal_strlit("i");
        reveal_strlit("me");
        reveal_strlit("my");
        reveal_strlit("myself");
        reveal_strlit("you");
        reveal_strlit("your");
        reveal_strlit("yours");
        reveal_strlit("yourself");
        reveal_strlit("he");
        reveal_strlit("him");
        reveal_strlit("his");
        reveal_strlit("himself");
        reveal_strlit("she");
        reveal_strlit("her");
        reveal_strlit("hers");
        reveal_strlit("herself");
        reveal_strlit("it");
        reveal_strlit("its");
        reveal_strlit("itself");
        reveal_strlit("we");
        reveal_strlit("us");
        reveal_strlit("our");
        reveal_strlit("ours");
        reveal_strlit("ourselves");
        reveal_strlit("they");
        reveal_strlit("them");
        reveal_strlit("their");
        reveal_strlit("theirs");
        reveal_strlit("themselves");
        reveal_strlit("who");
        reveal_strlit("whom");
        reveal_strlit("whose");
        reveal_strlit("which");
        reveal_strlit("what");
        reveal_strlit("to");
        assert("against"@ != "the"@) by { assert("against"@.len() != "the"@.len()); }
        assert("against"@ != "a"@) by { assert("against"@.len() != "a"@.len()); }
        assert("against"@ != "an"@) by { assert("against"@.len() != "an"@.len()); }
        assert("against"@ != "this"@) by { assert("against"@.len() != "this"@.len()); }
        assert("against"@ != "that"@) by { assert("against"@.len() != "that"@.len()); }
        assert("against"@ != "these"@) by { assert("against"@.len() != "these"@.len()); }
        assert("against"@ != "those"@) by { assert("against"@.len() != "those"@.len()); }
        assert("against"@ != "i"@) by { assert("against"@.len() != "i"@.len()); }
        assert("against"@ != "me"@) by { assert("against"@.len() != "me"@.len()); }
        assert("against"@ != "my"@) by { assert("against"@.len() != "my"@.len()); }
        assert("against"@ != "myself"@) by { assert("against"@.len() != "myself"@.len()); }
        assert("against"@ != "you"@) by { assert("against"@.len() != "you"@.len()); }
        assert("against"@ != "your"@) by { assert("against"@.len() != "your"@.len()); }
        assert("against"@ != "yours"@) by { assert("against"@.len() != "yours"@.len()); }
        assert("against"@ != "yourself"@) by { assert("against"@.len() != "yourself"@.len()); }
        assert("against"@ != "he"@) by { assert("against"@.len() != "he"@.len()); }
        assert("against"@ != "him"@) by { assert("against"@.len() != "him"@.len()); }
        assert("against"@ != "his"@) by { assert("against"@.len() != "his"@.len()); }
        assert("against"@ != "himself"@) by { assert("against"@[0] != "himself"@[0]); }
        assert("against"@ != "she"@) by { assert("against"@.len() != "she"@.len()); }
        assert("against"@ != "her"@) by { assert("against"@.len() != "her"@.len()); }
        assert("against"@ != "hers"@) by { assert("against"@.len() != "hers"@.len()); }
        assert("against"@ != "herself"@) by { assert("against"@[0] != "herself"@[0]); }
        assert("against"@ != "it"@) by { assert("against"@.len() != "it"@.len()); }
        assert("against"@ != "its"@) by { assert("against"@.len() != "its"@.len()); }
        assert("against"@ != "itself"@) by { assert("against"@.len() != "itself"@.len()); }
        assert("against"@ != "we"@) by { assert("against"@.len() != "we"@.len()); }
        assert("against"@ != "us"@) by { assert("against"@.len() != "us"@.len()); }
        assert("against"@ != "our"@) by { assert("against"@.len() != "our"@.len()); }
        assert("against"@ != "ours"@) by { assert("against"@.len() != "ours"@.len()); }
        assert("against"@ != "ourselves"@) by { assert("against"@.len() != "ourselves"@.len()); }
        assert("against"@ != "they"@) by { assert("against"@.len() != "they"@.len()); }
        assert("against"@ != "them"@) by { assert("against"@.len() != "them"@.len()); }
        assert("against"@ != "their"@) by { assert("against"@.len() != "their"@.len()); }
        assert("against"@ != "theirs"@) by { assert("against"@.len() != "theirs"@.len()); }
        assert("against"@ != "themselves"@) by { assert("against"@.len() != "themselves"@.len()); }
        assert("against"@ != "who"@) by { assert("against"@.len() != "who"@.len()); }
        assert("against"@ != "whom"@) by { assert("against"@.len() != "whom"@.len()); }
        assert("against"@ != "whose"@) by { assert("against"@.len() != "whose"@.len()); }
        assert("against"@ != "which"@) by { assert("against"@.len() != "which"@.len()); }
        assert("against"@ != "what"@) by { assert("against"@.len() != "what"@.len()); }
        assert("against"@ != "to"@) by { assert("against"@.len() != "to"@.len()); }
    } else if p == "between"@ {
        reveal_strlit("between");
        reveal_strlit("the");
        reveal_strlit("a");
        reveal_strlit("an");
        reveal_strlit("this");
        reveal_strlit("that");
        reveal_strlit("these");
        reveal_strlit("those");
        reveal_strlit("i");
        reveal_strlit("me");
        reveal_strlit("my");
        reveal_strlit("myself");
        reveal_strlit("you");
        reveal_strlit("your");
        reveal_strlit("yours");
        reveal_strlit("yourself");
        reveal_strlit("he");
        reveal_strlit("him");
        reveal_strlit("his");
        reveal_strlit("himself");
        reveal_strlit("she");
        reveal_strlit("her");
        reveal_strlit("hers");
        reveal_strlit("herself");
        reveal_strlit("it");
        reveal_strlit("its");
        reveal_strlit("itself");
        reveal_strlit("we");
        reveal_strlit("us");
        reveal_strlit("our");
        reveal_strlit("ours");
        reveal_strlit("ourselves");
        reveal_strlit("they");
        reveal_strlit("them");
        reveal_strlit("their");
        reveal_strlit("theirs");
        reveal_strlit("themselves");
        reveal_strlit("who");
        reveal_strlit("whom");
        reveal_strlit("whose");
        reveal_strlit("which");
        reveal_strlit("what");
        reveal_strlit("to");
        assert("between"@ != "the"@) by { assert("between"@.len() != "the"@.len()); }
        assert("between"@ != "a"@) by { assert("between"@.len() != "a"@.len()); }
        assert("between"@ != "an"@) by { assert("between"@.len() != "an"@.len()); }
        assert("between"@ != "this"@) by { assert("between"@.len() != "this"@.len()); }
        assert("between"@ != "that"@) by { assert("between"@.len() != "that"@.len()); }
        assert("between"@ != "these"@) by { assert("between"@.len() != "these"@.len()); }
        assert("between"@ != "those"@) by { assert("between"@.len() != "those"@.len()); }
        assert("between"@ != "i"@) by { assert("between"@.len() != "i"@.len()); }
        assert("between"@ != "me"@) by { assert("between"@.len() != "me"@.len()); }
        assert("between"@ != "my"@) by { assert("between"@.len() != "my"@.len()); }
        assert("between"@ != "myself"@) by { assert("between"@.len() != "myself"@.len()); }
        assert("between"@ != "you"@) by { assert("between"@.len() != "you"@.len()); }
        assert("between"@ != "your"@) by { assert("between"@.len() != "your"@.len()); }
        assert("between"@ != "yours"@) by { assert("between"@.len() != "yours"@.len()); }
        assert("between"@ != "yourself"@) by { assert("between"@.len() != "yourself"@.len()); }
        assert("between"@ != "he"@) by { assert("between"@.len() != "he"@.len()); }
        assert("between"@ != "him"@) by { assert("between"@.len() != "him"@.len()); }
        assert("between"@ != "his"@) by { assert("between"@.len() != "his"@.len()); }
        assert("between"@ != "himself"@) by { assert("between"@[0] != "himself"@[0]); }
        assert("between"@ != "she"@) by { assert("between"@.len() != "she"@.len()); }
        assert("between"@ != "her"@) by { assert("between"@.len() != "her"@.len()); }
        assert("between"@ != "hers"@) by { assert("between"@.len() != "hers"@.len()); }
        assert("between"@ != "herself"@) by { assert("between"@[0] != "herself"@[0]); }
        assert("between"@ != "it"@) by { assert("between"@.len() != "it"@.len()); }
        assert("between"@ != "its"@) by { assert("between"@.len() != "its"@.len()); }
        assert("between"@ != "itself"@) by { assert("between"@.len() != "itself"@.len()); }
        assert("between"@ != "we"@) by { assert("between"@.len() != "we"@.len()); }
        assert("between"@ != "us"@) by { assert("between"@.len() != "us"@.len()); }
        assert("between"@ != "our"@) by { assert("between"@.len() != "our"@.len()); }
        assert("between"@ != "ours"@) by { assert("between"@.len() != "ours"@.len()); }
        assert("between"@ != "ourselves"@) by { assert("between"@.len() != "ourselves"@.len()); }
        assert("between"@ != "they"@) by { assert("between"@.len() != "they"@.len()); }
        assert("between"@ != "them"@) by { assert("between"@.len() != "them"@.len()); }
        assert("between"@ != "their"@) by { assert("between"@.len() != "their"@.len()); }
        assert("between"@ != "theirs"@) by { assert("between"@.len() != "theirs"@.len()); }
        assert("between"@ != "themselves"@) by { assert("between"@.len() != "themselves"@.len()); }
        assert("between"@ != "who"@) by { assert("between"@.len() != "who"@.len()); }
        assert("between"@ != "whom"@) by { assert("between"@.len() != "whom"@.len()); }
        assert("between"@ != "whose"@) by { assert("between"@.len() != "whose"@.len()); }
        assert("between"@ != "which"@) by { assert("between"@.len() != "which"@.len()); }
        assert("between"@ != "what"@) by { assert("between"@.len() != "what"@.len()); }
        assert("between"@ != "to"@) by { assert("between"@.len() != "to"@.len()); }
    } else if p == "into"@ {
        reveal_strlit("into");
        reveal_strlit("the");
        reveal_strlit("a");
        reveal_strlit("an");
        reveal_strlit("this");
        reveal_strlit("that");
        reveal_strlit("these");
        reveal_strlit("those");
        reveal_strlit("i");
        reveal_strlit("me");
        reveal_strlit("my");
        reveal_strlit("myself");
        reveal_strlit("you");
        reveal_strlit("your");
        reveal_strlit("yours");
        reveal_strlit("yourself");
        reveal_strlit("he");
        reveal_strlit("him");
        reveal_strlit("his");
        reveal_strlit("himself");
        reveal_strlit("she");
        reveal_strlit("her");
        reveal_strlit("hers");
        reveal_strlit("herself");
        reveal_strlit("it");
        reveal_strlit("its");
        reveal_strlit("itself");
        reveal_strlit("we");
        reveal_strlit("us");
        reveal_strlit("our");
        reveal_strlit("ours");
        reveal_strlit("ourselves");
        reveal_strlit("they");
        reveal_strlit("them");
        reveal_strlit("their");
        reveal_strlit("theirs");
        reveal_strlit("themselves");
        reveal_strlit("who");
        reveal_strlit("whom");
        reveal_strlit("whose");
        reveal_strlit("which");
        reveal_strlit("what");
        reveal_strlit("to");
        assert("into"@ != "the"@) by { assert("into"@.len() != "the"@.len()); }
        assert("into"@ != "a"@) by { assert("into"@.len() != "a"@.len()); }
        assert("into"@ != "an"@) by { assert("into"@.len() != "an"@.len()); }
        assert("into"@ != "this"@) by { assert("into"@[0] != "this"@[0]); }
        assert("into"@ != "that"@) by { assert("into"@[0] != "that"@[0]); }
        assert("into"@ != "these"@) by { assert("into"@.len() != "these"@.len()); }
        assert("into"@ != "those"@) by { assert("into"@.len() != "those"@.len()); }
        assert("into"@ != "i"@) by { assert("into"@.len() != "i"@.len()); }
        assert("into"@ != "me"@) by { assert("into"@.len() != "me"@.len()); }
        assert("into"@ != "my"@) by { assert("into"@.len() != "my"@.len()); }
        assert("into"@ != "myself"@) by { assert("into"@.len() != "myself"@.len()); }
        assert("into"@ != "you"@) by { assert("into"@.len() != "you"@.len()); }
        assert("into"@ != "your"@) by { assert("into"@[0] != "your"@[0]); }
        assert("into"@ != "yours"@) by { assert("into"@.len() != "yours"@.len()); }
        assert("into"@ != "yourself"@) by { assert("into"@.len() != "yourself"@.len()); }
        assert("into"@ != "he"@) by { assert("into"@.len() != "he"@.len()); }
        assert("into"@ != "him"@) by { assert("into"@.len() != "him"@.len()); }
        assert("into"@ != "his"@) by { assert("into"@.len() != "his"@.len()); }
        assert("into"@ != "himself"@) by { assert("into"@.len() != "himself"@.len()); }
        assert("into"@ != "she"@) by { assert("into"@.len() != "she"@.len()); }
        assert("into"@ != "her"@) by { assert("into"@.len() != "her"@.len()); }
        assert("into"@ != "hers"@) by { assert("into"@[0] != "hers"@[0]); }
        assert("into"@ != "herself"@) by { assert("into"@.len() != "herself"@.len()); }
        assert("into"@ != "it"@) by { assert("into"@.len() != "it"@.len()); }
        assert("into"@ != "its"@) by { assert("into"@.len() != "its"@.len()); }
        assert("into"@ != "itself"@) by { assert("into"@.len() != "itself"@.len()); }
        assert("into"@ != "we"@) by { assert("into"@.len() != "we"@.len()); }
        assert("into"@ != "us"@) by { assert("into"@.len() != "us"@.len()); }
        assert("into"@ != "our"@) by { assert("into"@.len() != "our"@.len()); }
        assert("into"@ != "ours"@) by { assert("into"@[0] != "ours"@[0]); }
        assert("into"@ != "ourselves"@) by { assert("into"@.len() != "ourselves"@.len()); }
        assert("into"@ != "they"@) by { assert("into"@[0] != "they"@[0]); }
        assert("into"@ != "them"@) by { assert("into"@[0] != "them"@[0]); }
        assert("into"@ != "their"@) by { assert("into"@.len() != "their"@.len()); }
        assert("into"@ != "theirs"@) by { assert("into"@.len() != "theirs"@.len()); }
        assert("into"@ != "themselves"@) by { assert("into"@.len() != "themselves"@.len()); }
        assert("into"@ != "who"@) by { assert("into"@.len() != "who"@.len()); }
        assert("into"@ != "whom"@) by { assert("into"@[0] != "whom"@[0]); }
        assert("into"@ != "whose"@) by { assert("into"@.len() != "whose"@.len()); }
        assert("into"@ != "which"@) by { assert("into"@.len() != "which"@.len()); }
        assert("into"@ != "what"@) by { assert("into"@[0] != "what"@[0]); }
        assert("into"@ != "to"@) by { assert("into"@.len() != "to"@.len()); }
    } else if p == "through"@ {
        reveal_strlit("through");
        reveal_strlit("the");
        reveal_strlit("a");
        reveal_strlit("an");
        reveal_strlit("this");
        reveal_strlit("that");
        reveal_strlit("these");
        reveal_strlit("those");
        reveal_strlit("i");
        reveal_strlit("me");
        reveal_strlit("my");
        reveal_strlit("myself");
        reveal_strlit("you");
        reveal_strlit("your");
        reveal_strlit("yours");
        reveal_strlit("yourself");
        reveal_strlit("he");
        reveal_strlit("him");
        reveal_strlit("his");
        reveal_strlit("himself");
        reveal_strlit("she");
        reveal_strlit("her");
        reveal_strlit("hers");
        reveal_strlit("herself");
        reveal_strlit("it");
        reveal_strlit("its");
        reveal_strlit("itself");
        reveal_strlit("we");
        reveal_strlit("us");
        reveal_strlit("our");
        reveal_strlit("ours");
        reveal_strlit("ourselves");
        reveal_strlit("they");
        reveal_strlit("them");
        reveal_strlit("their");
        reveal_strlit("theirs");
        reveal_strlit("themselves");
        reveal_strlit("who");
        reveal_strlit("whom");
        reveal_strlit("whose");
        reveal_strlit("which");
        reveal_strlit("what");
        reveal_strlit("to");
        assert("through"@ != "the"@) by { assert("through"@.len() != "the"@.len()); }
        assert("through"@ != "a"@) by { assert("through"@.len() != "a"@.len()); }
        assert("through"@ != "an"@) by { assert("through"@.len() != "an"@.len()); }
        assert("through"@ != "this"@) by { assert("through"@.len() != "this"@.len()); }
        assert("through"@ != "that"@) by { assert("through"@.len() != "that"@.len()); }
        assert("through"@ != "these"@) by { assert("through"@.len() != "these"@.len()); }
        assert("through"@ != "those"@) by { assert("through"@.len() != "those"@.len()); }
        assert("through"@ != "i"@) by { assert("through"@.len() != "i"@.len()); }
        assert("through"@ != "me"@) by { assert("through"@.len() != "me"@.len()); }
        assert("through"@ != "my"@) by { assert("through"@.len() != "my"@.len()); }
        assert("through"@ != "myself"@) by { assert("through"@.len() != "myself"@.len()); }
        assert("through"@ != "you"@) by { assert("through"@.len() != "you"@.len()); }
        assert("through"@ != "your"@) by { assert("through"@.len() != "your"@.len()); }
        assert("through"@ != "yours"@) by { assert("through"@.len() != "yours"@.len()); }
        assert("through"@ != "yourself"@) by { assert("through"@.len() != "yourself"@.len()); }
        assert("through"@ != "he"@) by { assert("through"@.len() != "he"@.len()); }
        assert("through"@ != "him"@) by { assert("through"@.len() != "him"@.len()); }
        assert("through"@ != "his"@) by { assert("through"@.len() != "his"@.len()); }
        assert("through"@ != "himself"@) by { assert("through"@[0] != "himself"@[0]); }
        assert("through"@ != "she"@) by { assert("through"@.len() != "she"@.len()); }
        assert("through"@ != "her"@) by { assert("through"@.len() != "her"@.len()); }
        assert("through"@ != "hers"@) by { assert("through"@.len() != "hers"@.len()); }
        assert("through"@ != "herself"@) by { assert("through"@[0] != "herself"@[0]); }
        assert("through"@ != "it"@) by { assert("through"@.len() != "it"@.len()); }
        assert("through"@ != "its"@) by { assert("through"@.len() != "its"@.len()); }
        assert("through"@ != "itself"@) by { assert("through"@.len() != "itself"@.len()); }
        assert("through"@ != "we"@) by { assert("through"@.len() != "we"@.len()); }
        assert("through"@ != "us"@) by { assert("through"@.len() != "us"@.len()); }
        assert("through"@ != "our"@) by { assert("through"@.len() != "our"@.len()); }
        assert("through"@ != "ours"@) by { assert("through"@.len() != "ours"@.len()); }
        assert("through"@ != "ourselves"@) by { assert("through"@.len() != "ourselves"@.len()); }
        assert("through"@ != "they"@) by { assert("through"@.len() != "they"@.len()); }
        assert("through"@ != "them"@) by { assert("through"@.len() != "them"@.len()); }
        assert("through"@ != "their"@) by { assert("through"@.len() != "their"@.len()); }
        assert("through"@ != "theirs"@) by { assert("through"@.len() != "theirs"@.len()); }
        assert("through"@ != "themselves"@) by { assert("through"@.len() != "themselves"@.len()); }
        assert("through"@ != "who"@) by { assert("through"@.len() != "who"@.len()); }
        assert("through"@ != "whom"@) by { assert("through"@.len() != "whom"@.len()); }
        assert("through"@ != "whose"@) by { assert("through"@.len() != "whose"@.len()); }
        assert("through"@ != "which"@) by { assert("through"@.len() != "which"@.len()); }
        assert("through"@ != "what"@) by { assert("through"@.len() != "what"@.len()); }
        assert("through"@ != "to"@) by { assert("through"@.len() != "to"@.len()); }
    } else if p == "during"@ {
        reveal_strlit("during");
        reveal_strlit("the");
        reveal_strlit("a");
        reveal_strlit("an");
        reveal_strlit("this");
        reveal_strlit("that");
        reveal_strlit("these");
        reveal_strlit("those");
        reveal_strlit("i");
        reveal_strlit("me");
        reveal_strlit("my");
        reveal_strlit("myself");
        reveal_strlit("you");
        reveal_strlit("your");
        reveal_strlit("yours");
        reveal_strlit("yourself");
        reveal_strlit("he");
        reveal_strlit("him");
        reveal_strlit("his");
        reveal_strlit("himself");
        reveal_strlit("she");
        reveal_strlit("her");
        reveal_strlit("hers");
        reveal_strlit("herself");
        reveal_strlit("it");
        reveal_strlit("its");
        reveal_strlit("itself");
        reveal_strlit("we");
        reveal_strlit("us");
        reveal_strlit("our");
        reveal_strlit("ours");
        reveal_strlit("ourselves");
        reveal_strlit("they");
        reveal_strlit("them");
        reveal_strlit("their");
        reveal_strlit("theirs");
        reveal_strlit("themselves");
        reveal_strlit("who");
        reveal_strlit("whom");
        reveal_strlit("whose");
        reveal_strlit("which");
        reveal_strlit("what");
        reveal_strlit("to");
        assert("during"@ != "the"@) by { assert("during"@.len() != "the"@.len()); }
        assert("during"@ != "a"@) by { assert("during"@.len() != "a"@.len()); }
        assert("during"@ != "an"@) by { assert("during"@.len() != "an"@.len()); }
        assert("during"@ != "this"@) by { assert("during"@.len() != "this"@.len()); }
        assert("during"@ != "that"@) by { assert("during"@.len() != "that"@.len()); }
        assert("during"@ != "these"@) by { assert("during"@.len() != "these"@.len()); }
        assert("during"@ != "those"@) by { assert("during"@.len() != "those"@.len()); }
        assert("during"@ != "i"@) by { assert("during"@.len() != "i"@.len()); }
        assert("during"@ != "me"@) by { assert("during"@.len() != "me"@.len()); }
        assert("during"@ != "my"@) by { assert("during"@.len() != "my"@.len()); }
        assert("during"@ != "myself"@) by { assert("during"@[0] != "myself"@[0]); }
        assert("during"@ != "you"@) by { assert("during"@.len() != "you"@.len()); }
        assert("during"@ != "your"@) by { assert("during"@.len() != "your"@.len()); }
        assert("during"@ != "yours"@) by { assert("during"@.len() != "yours"@.len()); }
        assert("during"@ != "yourself"@) by { assert("during"@.len() != "yourself"@.len()); }
        assert("during"@ != "he"@) by { assert("during"@.len() != "he"@.len()); }
        assert("during"@ != "him"@) by { assert("during"@.len() != "him"@.len()); }
        assert("during"@ != "his"@) by { assert("during"@.len() != "his"@.len()); }
        assert("during"@ != "himself"@) by { assert("during"@.len() != "himself"@.len()); }
        assert("during"@ != "she"@) by { assert("during"@.len() != "she"@.len()); }
        assert("during"@ != "her"@) by { assert("during"@.len() != "her"@.len()); }
        assert("during"@ != "hers"@) by { assert("during"@.len() != "hers"@.len()); }
        assert("during"@ != "herself"@) by { assert("during"@.len() != "herself"@.len()); }
        assert("during"@ != "it"@) by { assert("during"@.len() != "it"@.len()); }
        assert("during"@ != "its"@) by { assert("during"@.len() != "its"@.len()); }
        assert("during"@ != "itself"@) by { assert("during"@[0] != "itself"@[0]); }
        assert("during"@ != "we"@) by { assert("during"@.len() != "we"@.len()); }
        assert("during"@ != "us"@) by { assert("during"@.len() != "us"@.len()); }
        assert("during"@ != "our"@) by { assert("during"@.len() != "our"@.len()); }
        assert("during"@ != "ours"@) by { assert("during"@.len() != "ours"@.len()); }
        assert("during"@ != "ourselves"@) by { assert("during"@.len() != "ourselves"@.len()); }
        assert("during"@ != "they"@) by { assert("during"@.len() != "they"@.len()); }
        assert("during"@ != "them"@) by { assert("during"@.len() != "them"@.len()); }
        assert("during"@ != "their"@) by { assert("during"@.len() != "their"@.len()); }
        assert("during"@ != "theirs"@) by { assert("during"@[0] != "theirs"@[0]); }
        assert("during"@ != "themselves"@) by { assert("during"@.len() != "themselves"@.len()); }
        assert("during"@ != "who"@) by { assert("during"@.len() != "who"@.len()); }
        assert("during"@ != "whom"@) by { assert("during"@.len() != "whom"@.len()); }
        assert("during"@ != "whose"@) by { assert("during"@.len() != "whose"@.len()); }
        assert("during"@ != "which"@) by { assert("during"@.len() != "which"@.len()); }
        assert("during"@ != "what"@) by { assert("during"@.len() != "what"@.len()); }
        assert("during"@ != "to"@) by { assert("during"@.len() != "to"@.len()); }
    } else if p == "before"@ {
        reveal_strlit("before");
        reveal_strlit("the");
        reveal_strlit("a");
        reveal_strlit("an");
        reveal_strlit("this");
        reveal_strlit("that");
        reveal_strlit("these");
        reveal_strlit("those");
        reveal_strlit("i");
        reveal_strlit("me");
        reveal_strlit("my");
        reveal_strlit("myself");
        reveal_strlit("you");
        reveal_strlit("your");
        reveal_strlit("yours");
        reveal_strlit("yourself");
        reveal_strlit("he");
        reveal_strlit("him");
        reveal_strlit("his");
        reveal_strlit("himself");
        reveal_strlit("she");
        reveal_strlit("her");
        reveal_strlit("hers");
        reveal_strlit("herself");
        reveal_strlit("it");
        reveal_strlit("its");
        reveal_strlit("itself");
        reveal_strlit("we");
        reveal_strlit("us");
        reveal_strlit("our");
        reveal_strlit("ours");
        reveal_strlit("ourselves");
        reveal_strlit("they");
        reveal_strlit("them");
        reveal_strlit("their");
        reveal_strlit("theirs");
        reveal_strlit("themselves");
        reveal_strlit("who");
        reveal_strlit("whom");
        reveal_strlit("whose");
        reveal_strlit("which");
        reveal_strlit("what");
        reveal_strlit("to");
        assert("before"@ != "the"@) by { assert("before"@.len() != "the"@.len()); }
        assert("before"@ != "a"@) by { assert("before"@.len() != "a"@.len()); }
        assert("before"@ != "an"@) by { assert("before"@.len() != "an"@.len()); }
        assert("before"@ != "this"@) by { assert("before"@.len() != "this"@.len()); }
        assert("before"@ != "that"@) by { assert("before"@.len() != "that"@.len()); }
        assert("before"@ != "these"@) by { assert("before"@.len() != "these"@.len()); }
        assert("before"@ != "those"@) by { assert("before"@.len() != "those"@.len()); }
        assert("before"@ != "i"@) by { assert("before"@.len() != "i"@.len()); }
        assert("before"@ != "me"@) by { assert("before"@.len() != "me"@.len()); }
        assert("before"@ != "my"@) by { assert("before"@.len() != "my"@.len()); }
        assert("before"@ != "myself"@) by { assert("before"@[0] != "myself"@[0]); }
        assert("before"@ != "you"@) by { assert("before"@.len() != "you"@.len()); }
        assert("before"@ != "your"@) by { assert("before"@.len() != "your"@.len()); }
        assert("before"@ != "yours"@) by { assert("before"@.len() != "yours"@.len()); }
        assert("before"@ != "yourself"@) by { assert("before"@.len() != "yourself"@.len()); }
        assert("before"@ != "he"@) by { assert("before"@.len() != "he"@.len()); }
        assert("before"@ != "him"@) by { assert("before"@.len() != "him"@.len()); }
        assert("before"@ != "his"@) by { assert("before"@.len() != "his"@.len()); }
        assert("before"@ != "himself"@) by { assert("before"@.len() != "himself"@.len()); }
        assert("before"@ != "she"@) by { assert("before"@.len() != "she"@.len()); }
        assert("before"@ != "her"@) by { assert("before"@.len() != "her"@.len()); }
        assert("before"@ != "hers"@) by { assert("before"@.len() != "hers"@.len()); }
        assert("before"@ != "herself"@) by { assert("before"@.len() != "herself"@.len()); }
        assert("before"@ != "it"@) by { assert("before"@.len() != "it"@.len()); }
        assert("before"@ != "its"@) by { assert("before"@.len() != "its"@.len()); }
        assert("before"@ != "itself"@) by { assert("before"@[0] != "itself"@[0]); }
        assert("before"@ != "we"@) by { assert("before"@.len() != "we"@.len()); }
        assert("before"@ != "us"@) by { assert("before"@.len() != "us"@.len()); }
        assert("before"@ != "our"@) by { assert("before"@.len() != "our"@.len()); }
        assert("before"@ != "ours"@) by { assert("before"@.len() != "ours"@.len()); }
        assert("before"@ != "ourselves"@) by { assert("before"@.len() != "ourselves"@.len()); }
        assert("before"@ != "they"@) by { assert("before"@.len() != "they"@.len()); }
        assert("before"@ != "them"@) by { assert("before"@.len() != "them"@.len()); }
        assert("before"@ != "their"@) by { assert("before"@.len() != "their"@.len()); }
        assert("before"@ != "theirs"@) by { assert("before"@[0] != "theirs"@[0]); }
        assert("before"@ != "themselves"@) by { assert("before"@.len() != "themselves"@.len()); }
        assert("before"@ != "who"@) by { assert("before"@.len() != "who"@.len()); }
        assert("before"@ != "whom"@) by { assert("before"@.len() != "whom"@.len()); }
        assert("before"@ != "whose"@) by { assert("before"@.len() != "whose"@.len()); }
        assert("before"@ != "which"@) by { assert("before"@.len() != "which"@.len()); }
        assert("before"@ != "what"@) by { assert("before"@.len() != "what"@.len()); }
        assert("before"@ != "to"@) by { assert("before"@.len() != "to"@.len()); }
    } else if p == "after"@ {
        reveal_strlit("after");
        reveal_strlit("the");
        reveal_strlit("a");
        reveal_strlit("an");
        reveal_strlit("this");
        reveal_strlit("that");
        reveal_strlit("these");
        reveal_strlit("those");
        reveal_strlit("i");
        reveal_strlit("me");
        reveal_strlit("my");
        reveal_strlit("myself");
        reveal_strlit("you");
        reveal_strlit("your");
        reveal_strlit("yours");
        reveal_strlit("yourself");
        reveal_strlit("he");
        reveal_strlit("him");
        reveal_strlit("his");
        reveal_strlit("himself");
        reveal_strlit("she");
        reveal_strlit("her");
        reveal_strlit("hers");
        reveal_strlit("herself");
        reveal_strlit("it");
        reveal_strlit("its");
        reveal_strlit("itself");
        reveal_strlit("we");
        reveal_strlit("us");
        reveal_strlit("our");
        reveal_strlit("ours");
        reveal_strlit("ourselves");
        reveal_strlit("they");
        reveal_strlit("them");
        reveal_strlit("their");
        reveal_strlit("theirs");
        reveal_strlit("themselves");
        reveal_strlit("who");
        reveal_strlit("whom");
        reveal_strlit("whose");
        reveal_strlit("which");
        reveal_strlit("what");
        reveal_strlit("to");
        assert("after"@ != "the"@) by { assert("after"@.len() != "the"@.len()); }
        assert("after"@ != "a"@) by { assert("after"@.len() != "a"@.len()); }
        assert("after"@ != "an"@) by { assert("after"@.len() != "an"@.len()); }
        assert("after"@ != "this"@) by { assert("after"@.len() != "this"@.len()); }
        assert("after"@ != "that"@) by { assert("after"@.len() != "that"@.len()); }
        assert("after"@ != "these"@) by { assert("after"@[0] != "these"@[0]); }
        assert("after"@ != "those"@) by { assert("after"@[0] != "those"@[0]); }
        assert("after"@ != "i"@) by { assert("after"@.len() != "i"@.len()); }
        assert("after"@ != "me"@) by { assert("after"@.len() != "me"@.len()); }
        assert("after"@ != "my"@) by { assert("after"@.len() != "my"@.len()); }
        assert("after"@ != "myself"@) by { assert("after"@.len() != "myself"@.len()); }
        assert("after"@ != "you"@) by { assert("after"@.len() != "you"@.len()); }
        assert("after"@ != "your"@) by { assert("after"@.len() != "your"@.len()); }
        assert("after"@ != "yours"@) by { assert("after"@[0] != "yours"@[0]); }
        assert("after"@ != "yourself"@) by { assert("after"@.len() != "yourself"@.len()); }
        assert("after"@ != "he"@) by { assert("after"@.len() != "he"@.len()); }
        assert("after"@ != "him"@) by { assert("after"@.len() != "him"@.len()); }
        assert("after"@ != "his"@) by { assert("after"@.len() != "his"@.len()); }
        assert("after"@ != "himself"@) by { assert("after"@.len() != "himself"@.len()); }
        assert("after"@ != "she"@) by { assert("after"@.len() != "she"@.len()); }
        assert("after"@ != "her"@) by { assert("after"@.len() != "her"@.len()); }
        assert("after"@ != "hers"@) by { assert("after"@.len() != "hers"@.len()); }
        assert("after"@ != "herself"@) by { assert("after"@.len() != "herself"@.len()); }
        assert("after"@ != "it"@) by { assert("after"@.len() != "it"@.len()); }
        assert("after"@ != "its"@) by { assert("after"@.len() != "its"@.len()); }
        assert("after"@ != "itself"@) by { assert("after"@.len() != "itself"@.len()); }
        assert("after"@ != "we"@) by { assert("after"@.len() != "we"@.len()); }
        assert("after"@ != "us"@) by { assert("after"@.len() != "us"@.len()); }
        assert("after"@ != "our"@) by { assert("after"@.len() != "our"@.len()); }
        assert("after"@ != "ours"@) by { assert("after"@.len() != "ours"@.len()); }
        assert("after"@ != "ourselves"@) by { assert("after"@.len() != "ourselves"@.len()); }
        assert("after"@ != "they"@) by { assert("after"@.len() != "they"@.len()); }
        assert("after"@ != "them"@) by { assert("after"@.len() != "them"@.len()); }
        assert("after"@ != "their"@) by { assert("after"@[0] != "their"@[0]); }
        assert("after"@ != "theirs"@) by { assert("after"@.len() != "theirs"@.len()); }
        assert("after"@ != "themselves"@) by { assert("after"@.len() != "themselves"@.len()); }
        assert("after"@ != "who"@) by { assert("after"@.len() != "who"@.len()); }
        assert("after"@ != "whom"@) by { assert("after"@.len() != "whom"@.len()); }
        assert("after"@ != "whose"@) by { assert("after"@[0] != "whose"@[0]); }
        assert("after"@ != "which"@) by { assert("after"@[0] != "which"@[0]); }
        assert("after"@ != "what"@) by { assert("after"@.len() != "what"@.len()); }
        assert("after"@ != "to"@) by { assert("after"@.len() != "to"@.len()); }
    } else if p == "above"@ {
        reveal_strlit("above");
        reveal_strlit("the");
        reveal_strlit("a");
        reveal_strlit("an");
        reveal_strlit("this");
        reveal_strlit("that");
        reveal_strlit("these");
        reveal_strlit("those");
        reveal_strlit("i");
        reveal_strlit("me");
        reveal_strlit("my");
        reveal_strlit("myself");
        reveal_strlit("you");
        reveal_strlit("your");
        reveal_strlit("yours");
        reveal_strlit("yourself");
        reveal_strlit("he");
        reveal_strlit("him");
        reveal_strlit("his");
        reveal_strlit("himself");
        reveal_strlit("she");
        reveal_strlit("her");
        reveal_strlit("hers");
        reveal_strlit("herself");
        reveal_strlit("it");
        reveal_strlit("its");
        reveal_strlit("itself");
        reveal_strlit("we");
        reveal_strlit("us");
        reveal_strlit("our");
        reveal_strlit("ours");
        reveal_strlit("ourselves");
        reveal_strlit("they");
        reveal_strlit("them");
        reveal_strlit("their");
        reveal_strlit("theirs");
        reveal_strlit("themselves");
        reveal_strlit("who");
        reveal_strlit("whom");
        reveal_strlit("whose");
        reveal_strlit("which");
        reveal_strlit("what");
        reveal_strlit("to");
        assert("above"@ != "the"@) by { assert("above"@.len() != "the"@.len()); }
        assert("above"@ != "a"@) by { assert("above"@.len() != "a"@.len()); }
        assert("above"@ != "an"@) by { assert("above"@.len() != "an"@.len()); }
        assert("above"@ != "this"@) by { assert("above"@.len() != "this"@.len()); }
        assert("above"@ != "that"@) by { assert("above"@.len() != "that"@.len()); }
        assert("above"@ != "these"@) by { assert("above"@[0] != "these"@[0]); }
        assert("above"@ != "those"@) by { assert("above"@[0] != "those"@[0]); }
        assert("above"@ != "i"@) by { assert("above"@.len() != "i"@.len()); }
        assert("above"@ != "me"@) by { assert("above"@.len() != "me"@.len()); }
        assert("above"@ != "my"@) by { assert("above"@.len() != "my"@.len()); }
        assert("above"@ != "myself"@) by { assert("above"@.len() != "myself"@.len()); }
        assert("above"@ != "you"@) by { assert("above"@.len() != "you"@.len()); }
        assert("above"@ != "your"@) by { assert("above"@.len() != "your"@.len()); }
        assert("above"@ != "yours"@) by { assert("above"@[0] != "yours"@[0]); }
        assert("above"@ != "yourself"@) by { assert("above"@.len() != "yourself"@.len()); }
        assert("above"@ != "he"@) by { assert("above"@.len() != "he"@.len()); }
        assert("above"@ != "him"@) by { assert("above"@.len() != "him"@.len()); }
        assert("above"@ != "his"@) by { assert("above"@.len() != "his"@.len()); }
        assert("above"@ != "himself"@) by { assert("above"@.len() != "himself"@.len()); }
        assert("above"@ != "she"@) by { assert("above"@.len() != "she"@.len()); }
        assert("above"@ != "her"@) by { assert("above"@.len() != "her"@.len()); }
        assert("above"@ != "hers"@) by { assert("above"@.len() != "hers"@.len()); }
        assert("above"@ != "herself"@) by { assert("above"@.len() != "herself"@.len()); }
        assert("above"@ != "it"@) by { assert("above"@.len() != "it"@.len()); }
        assert("above"@ != "its"@) by { assert("above"@.len() != "its"@.len()); }
        assert("above"@ != "itself"@) by { assert("above"@.len() != "itself"@.len()); }
        assert("above"@ != "we"@) by { assert("above"@.len() != "we"@.len()); }
        assert("above"@ != "us"@) by { assert("above"@.len() != "us"@.len()); }
        assert("above"@ != "our"@) by { assert("above"@.len() != "our"@.len()); }
        assert("above"@ != "ours"@) by { assert("above"@.len() != "ours"@.len()); }
        assert("above"@ != "ourselves"@) by { assert("above"@.len() != "ourselves"@.len()); }
        assert("above"@ != "they"@) by { assert("above"@.len() != "they"@.len()); }
        assert("above"@ != "them"@) by { assert("above"@.len() != "them"@.len()); }
        assert("above"@ != "their"@) by { assert("above"@[0] != "their"@[0]); }
        assert("above"@ != "theirs"@) by { assert("above"@.len() != "theirs"@.len()); }
        assert("above"@ != "themselves"@) by { assert("above"@.len() != "themselves"@.len()); }
        assert("above"@ != "who"@) by { assert("above"@.len() != "who"@.len()); }
        assert("above"@ != "whom"@) by { assert("above"@.len() != "whom"@.len()); }
        assert("above"@ != "whose"@) by { assert("above"@[0] != "whose"@[0]); }
        assert("above"@ != "which"@) by { assert("above"@[0] != "which"@[0]); }
        assert("above"@ != "what"@) by { assert("above"@.len() != "what"@.len()); }
        assert("above"@ != "to"@) by { assert("above"@.len() != "to"@.len()); }
    } else if p == "below"@ {
        reveal_strlit("below");
        reveal_strlit("the");
        reveal_strlit("a");
        reveal_strlit("an");
        reveal_strlit("this");
        reveal_strlit("that");
        reveal_strlit("these");
        reveal_strlit("those");
        reveal_strlit("i");
        reveal_strlit("me");
        reveal_strlit("my");
        reveal_strlit("myself");
        reveal_strlit("you");
        reveal_strlit("your");
        reveal_strlit("yours");
        reveal_strlit("yourself");
        reveal_strlit("he");
        reveal_strlit("him");
        reveal_strlit("his");
        reveal_strlit("himself");
        reveal_strlit("she");
        reveal_strlit("her");
        reveal_strlit("hers");
        reveal_strlit("herself");
        reveal_strlit("it");
        reveal_strlit("its");
        reveal_strlit("itself");
        reveal_strlit("we");
        reveal_strlit("us");
        reveal_strlit("our");
        reveal_strlit("ours");
        reveal_strlit("ourselves");
        reveal_strlit("they");
        reveal_strlit("them");
        reveal_strlit("their");
        reveal_strlit("theirs");
        reveal_strlit("themselves");
        reveal_strlit("who");
        reveal_strlit("whom");
        reveal_strlit("whose");
        reveal_strlit("which");
        reveal_strlit("what");
        reveal_strlit("to");
        assert("below"@ != "the"@) by { assert("below"@.len() != "the"@.len()); }
        assert("below"@ != "a"@) by { assert("below"@.len() != "a"@.len()); }
        assert("below"@ != "an"@) by { assert("below"@.len() != "an"@.len()); }
        assert("below"@ != "this"@) by { assert("below"@.len() != "this"@.len()); }
        assert("below"@ != "that"@) by { assert("below"@.len() != "that"@.len()); }
        assert("below"@ != "these"@) by { assert("below"@[0] != "these"@[0]); }
        assert("below"@ != "those"@) by { assert("below"@[0] != "those"@[0]); }
        assert("below"@ != "i"@) by { assert("below"@.len() != "i"@.len()); }
        assert("below"@ != "me"@) by { assert("below"@.len() != "me"@.len()); }
        assert("below"@ != "my"@) by { assert("below"@.len() != "my"@.len()); }
        assert("below"@ != "myself"@) by { assert("below"@.len() != "myself"@.len()); }
        assert("below"@ != "you"@) by { assert("below"@.len() != "you"@.len()); }
        assert("below"@ != "your"@) by { assert("below"@.len() != "your"@.len()); }
        assert("below"@ != "yours"@) by { assert("below"@[0] != "yours"@[0]); }
        assert("below"@ != "yourself"@) by { assert("below"@.len() != "yourself"@.len()); }
        assert("below"@ != "he"@) by { assert("below"@.len() != "he"@.len()); }
        assert("below"@ != "him"@) by { assert("below"@.len() != "him"@.len()); }
        assert("below"@ != "his"@) by { assert("below"@.len() != "his"@.len()); }
        assert("below"@ != "himself"@) by { assert("below"@.len() != "himself"@.len()); }
        assert("below"@ != "she"@) by { assert("below"@.len() != "she"@.len()); }
        assert("below"@ != "her"@) by { assert("below"@.len() != "her"@.len()); }
        assert("below"@ != "hers"@) by { assert("below"@.len() != "hers"@.len()); }
        assert("below"@ != "herself"@) by { assert("below"@.len() != "herself"@.len()); }
        assert("below"@ != "it"@) by { assert("below"@.len() != "it"@.len()); }
        assert("below"@ != "its"@) by { assert("below"@.len() != "its"@.len()); }
        assert("below"@ != "itself"@) by { assert("below"@.len() != "itself"@.len()); }
        assert("below"@ != "we"@) by { assert("below"@.len() != "we"@.len()); }
        assert("below"@ != "us"@) by { assert("below"@.len() != "us"@.len()); }
        assert("below"@ != "our"@) by { assert("below"@.len() != "our"@.len()); }
        assert("below"@ != "ours"@) by { assert("below"@.len() != "ours"@.len()); }
        assert("below"@ != "ourselves"@) by { assert("below"@.len() != "ourselves"@.len()); }
        assert("below"@ != "they"@) by { assert("below"@.len() != "they"@.len()); }
        assert("below"@ != "them"@) by { assert("below"@.len() != "them"@.len()); }
        assert("below"@ != "their"@) by { assert("below"@[0] != "their"@[0]); }
        assert("below"@ != "theirs"@) by { assert("below"@.len() != "theirs"@.len()); }
        assert("below"@ != "themselves"@) by { assert("below"@.len() != "themselves"@.len()); }
        assert("below"@ != "who"@) by { assert("below"@.len() != "who"@.len()); }
        assert("below"@ != "whom"@) by { assert("below"@.len() != "whom"@.len()); }
        assert("below"@ != "whose"@) by { assert("below"@[0] != "whose"@[0]); }
        assert("below"@ != "which"@) by { assert("below"@[0] != "which"@[0]); }
        assert("below"@ != "what"@) by { assert("below"@.len() != "what"@.len()); }
        assert("below"@ != "to"@) by { assert("below"@.len() != "to"@.len()); }
    } else if p == "from"@ {
        reveal_strlit("from");
        reveal_strlit("the");
        reveal_strlit("a");
        reveal_strlit("an");
        reveal_strlit("this");
        reveal_strlit("that");
        reveal_strlit("these");
        reveal_strlit("those");
        reveal_strlit("i");
        reveal_strlit("me");
        reveal_strlit("my");
        reveal_strlit("myself");
        reveal_strlit("you");
        reveal_strlit("your");
        reveal_strlit("yours");
        reveal_strlit("yourself");
        reveal_strlit("he");
        reveal_strlit("him");
        reveal_strlit("his");
        reveal_strlit("himself");
        reveal_strlit("she");
        reveal_strlit("her");
        reveal_strlit("hers");
        reveal_strlit("herself");
        reveal_strlit("it");
        reveal_strlit("its");
        reveal_strlit("itself");
        reveal_strlit("we");
        reveal_strlit("us");
        reveal_strlit("our");
        reveal_strlit("ours");
        reveal_strlit("ourselves");
        reveal_strlit("they");
        reveal_strlit("them");
        reveal_strlit("their");
        reveal_strlit("theirs");
        reveal_strlit("themselves");
        reveal_strlit("who");
        reveal_strlit("whom");
        reveal_strlit("whose");
        reveal_strlit("which");
        reveal_strlit("what");
        reveal_strlit("to");
        assert("from"@ != "the"@) by { assert("from"@.len() != "the"@.len()); }
        assert("from"@ != "a"@) by { assert("from"@.len() != "a"@.len()); }
        assert("from"@ != "an"@) by { assert("from"@.len() != "an"@.len()); }
        assert("from"@ != "this"@) by { assert("from"@[0] != "this"@[0]); }
        assert("from"@ != "that"@) by { assert("from"@[0] != "that"@[0]); }
        assert("from"@ != "these"@) by { assert("from"@.len() != "these"@.len()); }
        assert("from"@ != "those"@) by { assert("from"@.len() != "those"@.len()); }
        assert("from"@ != "i"@) by { assert("from"@.len() != "i"@.len()); }
        assert("from"@ != "me"@) by { assert("from"@.len() != "me"@.len()); }
        assert("from"@ != "my"@) by { assert("from"@.len() != "my"@.len()); }
        assert("from"@ != "myself"@) by { assert("from"@.len() != "myself"@.len()); }
        assert("from"@ != "you"@) by { assert("from"@.len() != "you"@.len()); }
        assert("from"@ != "your"@) by { assert("from"@[0] != "your"@[0]); }
        assert("from"@ != "yours"@) by { assert("from"@.len() != "yours"@.len()); }
        assert("from"@ != "yourself"@) by { assert("from"@.len() != "yourself"@.len()); }
        assert("from"@ != "he"@) by { assert("from"@.len() != "he"@.len()); }
        assert("from"@ != "him"@) by { assert("from"@.len() != "him"@.len()); }
        assert("from"@ != "his"@) by { assert("from"@.len() != "his"@.len()); }
        assert("from"@ != "himself"@) by { assert("from"@.len() != "himself"@.len()); }
        assert("from"@ != "she"@) by { assert("from"@.len() != "she"@.len()); }
        assert("from"@ != "her"@) by { assert("from"@.len() != "her"@.len()); }
        assert("from"@ != "hers"@) by { assert("from"@[0] != "hers"@[0]); }
        assert("from"@ != "herself"@) by { assert("from"@.len() != "herself"@.len()); }
        assert("from"@ != "it"@) by { assert("from"@.len() != "it"@.len()); }
        assert("from"@ != "its"@) by { assert("from"@.len() != "its"@.len()); }
        assert("from"@ != "itself"@) by { assert("from"@.len() != "itself"@.len()); }
        assert("from"@ != "we"@) by { assert("from"@.len() != "we"@.len()); }
        assert("from"@ != "us"@) by { assert("from"@.len() != "us"@.len()); }
        assert("from"@ != "our"@) by { assert("from"@.len() != "our"@.len()); }
        assert("from"@ != "ours"@) by { assert("from"@[0] != "ours"@[0]); }
        assert("from"@ != "ourselves"@) by { assert("from"@.len() != "ourselves"@.len()); }
        assert("from"@ != "they"@) by { assert("from"@[0] != "they"@[0]); }
        assert("from"@ != "them"@) by { assert("from"@[0] != "them"@[0]); }
        assert("from"@ != "their"@) by { assert("from"@.len() != "their"@.len()); }
        assert("from"@ != "theirs"@) by { assert("from"@.len() != "theirs"@.len()); }
        assert("from"@ != "themselves"@) by { assert("from"@.len() != "themselves"@.len()); }
        assert("from"@ != "who"@) by { assert("from"@.len() != "who"@.len()); }
        assert("from"@ != "whom"@) by { assert("from"@[0] != "whom"@[0]); }
        assert("from"@ != "whose"@) by { assert("from"@.len() != "whose"@.len()); }
        assert("from"@ != "which"@) by { assert("from"@.len() != "which"@.len()); }
        assert("from"@ != "what"@) by { assert("from"@[0] != "what"@[0]); }
        assert("from"@ != "to"@) by { assert("from"@.len() != "to"@.len()); }
    } else if p == "of"@ {
        reveal_strlit("of");
        reveal_strlit("the");
        reveal_strlit("a");
        reveal_strlit("an");
        reveal_strlit("this");
        reveal_strlit("that");
        reveal_strlit("these");
        reveal_strlit("those");
        reveal_strlit("i");
        reveal_strlit("me");
        reveal_strlit("my");
        reveal_strlit("myself");
        reveal_strlit("you");
        reveal_strlit("your");
        reveal_strlit("yours");
        reveal_strlit("yourself");
        reveal_strlit("he");
        reveal_strlit("him");
        reveal_strlit("his");
        reveal_strlit("himself");
        reveal_strlit("she");
        reveal_strlit("her");
        reveal_strlit("hers");
        reveal_strlit("herself");
        reveal_strlit("it");
        reveal_strlit("its");
        reveal_strlit("itself");
        reveal_strlit("we");
        reveal_strlit("us");
        reveal_strlit("our");
        reveal_strlit("ours");
        reveal_strlit("ourselves");
        reveal_strlit("they");
        reveal_strlit("them");
        reveal_strlit("their");
        reveal_strlit("theirs");
        reveal_strlit("themselves");
        reveal_strlit("who");
        reveal_strlit("whom");
        reveal_strlit("whose");
        reveal_strlit("which");
        reveal_strlit("what");
        reveal_strlit("to");
        assert("of"@ != "the"@) by { assert("of"@.len() != "the"@.len()); }
        assert("of"@ != "a"@) by { assert("of"@.len() != "a"@.len()); }
        assert("of"@ != "an"@) by { assert("of"@[0] != "an"@[0]); }
        assert("of"@ != "this"@) by { assert("of"@.len() != "this"@.len()); }
        assert("of"@ != "that"@) by { assert("of"@.len() != "that"@.len()); }
        assert("of"@ != "these"@) by { assert("of"@.len() != "these"@.len()); }
        assert("of"@ != "those"@) by { assert("of"@.len() != "those"@.len()); }
        assert("of"@ != "i"@) by { assert("of"@.len() != "i"@.len()); }
        assert("of"@ != "me"@) by { assert("of"@[0] != "me"@[0]); }
        assert("of"@ != "my"@) by { assert("of"@[0] != "my"@[0]); }
        assert("of"@ != "myself"@) by { assert("of"@.len() != "myself"@.len()); }
        assert("of"@ != "you"@) by { assert("of"@.len() != "you"@.len()); }
        assert("of"@ != "your"@) by { assert("of"@.len() != "your"@.len()); }
        assert("of"@ != "yours"@) by { assert("of"@.len() != "yours"@.len()); }
        assert("of"@ != "yourself"@) by { assert("of"@.len() != "yourself"@.len()); }
        assert("of"@ != "he"@) by { assert("of"@[0] != "he"@[0]); }
        assert("of"@ != "him"@) by { assert("of"@.len() != "him"@.len()); }
        assert("of"@ != "his"@) by { assert("of"@.len() != "his"@.len()); }
        assert("of"@ != "himself"@) by { assert("of"@.len() != "himself"@.len()); }
        assert("of"@ != "she"@) by { assert("of"@.len() != "she"@.len()); }
        assert("of"@ != "her"@) by { assert("of"@.len() != "her"@.len()); }
        assert("of"@ != "hers"@) by { assert("of"@.len() != "hers"@.len()); }
        assert("of"@ != "herself"@) by { assert("of"@.len() != "herself"@.len()); }
        assert("of"@ != "it"@) by { assert("of"@[0] != "it"@[0]); }
        assert("of"@ != "its"@) by { assert("of"@.len() != "its"@.len()); }
        assert("of"@ != "itself"@) by { assert("of"@.len() != "itself"@.len()); }
        assert("of"@ != "we"@) by { assert("of"@[0] != "we"@[0]); }
        assert("of"@ != "us"@) by { assert("of"@[0] != "us"@[0]); }
        assert("of"@ != "our"@) by { assert("of"@.len() != "our"@.len()); }
        assert("of"@ != "ours"@) by { assert("of"@.len() != "ours"@.len()); }
        assert("of"@ != "ourselves"@) by { assert("of"@.len() != "ourselves"@.len()); }
        assert("of"@ != "they"@) by { assert("of"@.len() != "they"@.len()); }
        assert("of"@ != "them"@) by { assert("of"@.len() != "them"@.len()); }
        assert("of"@ != "their"@) by { assert("of"@.len() != "their"@.len()); }
        assert("of"@ != "theirs"@) by { assert("of"@.len() != "theirs"@.len()); }
        assert("of"@ != "themselves"@) by { assert("of"@.len() != "themselves"@.len()); }
        assert("of"@ != "who"@) by { assert("of"@.len() != "who"@.len()); }
        assert("of"@ != "whom"@) by { assert("of"@.len() != "whom"@.len()); }
        assert("of"@ != "whose"@) by { assert("of"@.len() != "whose"@.len()); }
        assert("of"@ != "which"@) by { assert("of"@.len() != "which"@.len()); }
        assert("of"@ != "what"@) by { assert("of"@.len() != "what"@.len()); }
        assert("of"@ != "to"@) by { assert("of"@[0] != "to"@[0]); }
    }
}



/// The determiners: the, a, an, this, that, these, those.
pub open spec fn listed_determiner(l: Seq<char>) -> bool {
    l == "the"@ || l == "a"@ || l == "an"@ || l == "this"@ || l == "that"@ || l == "these"@ || l == "those"@
}

/// The pronouns and wh-words: i, me, my, myself, you, your, yours, yourself, he,
/// him, his, himself, she, her, hers, herself, it, its, itself, we, us, our, ours,
/// ourselves, they, them, their, theirs, themselves, who, whom, whose, which, what.
pub open spec fn listed_pronoun(l: Seq<char>) -> bool {
    l == "i"@ || l == "me"@ || l == "my"@ || l == "myself"@ || l == "you"@ || l == "your"@ || l == "yours"@ || l == "yourself"@ || l == "he"@ || l == "him"@ || l == "his"@ || l == "himself"@ || l == "she"@ || l == "her"@ || l == "hers"@ || l == "herself"@ || l == "it"@ || l == "its"@ || l == "itself"@ || l == "we"@ || l == "us"@ || l == "our"@ || l == "ours"@ || l == "ourselves"@ || l == "they"@ || l == "them"@ || l == "their"@ || l == "theirs"@ || l == "themselves"@ || l == "who"@ || l == "whom"@ || l == "whose"@ || l == "which"@ || l == "what"@
}

/// The coordinating conjunctions: and, but, or, so, nor, yet.
pub open spec fn listed_conjunction(l: Seq<char>) -> bool {
    l == "and"@ || l == "but"@ || l == "or"@ || l == "so"@ || l == "nor"@ || l == "yet"@
}

proof fn lemma_pronoun_is_no_earlier_class(p: Seq<char>)
    requires
        listed_pronoun(p),
    ensures
        !determiner(p),
        pronoun(p),
{
    if p == "i"@ {
        reveal_strlit("i");
        reveal_strlit("the");
        reveal_strlit("a");
        reveal_strlit("an");
        reveal_strlit("this");
        reveal_strlit("that");
        reveal_strlit("these");
        reveal_strlit("those");
        assert("i"@ != "the"@) by { assert("i"@.len() != "the"@.len()); }
        assert("i"@ != "a"@) by { assert("i"@[0] != "a"@[0]); }
        assert("i"@ != "an"@) by { assert("i"@.len() != "an"@.len()); }
        assert("i"@ != "this"@) by { assert("i"@.len() != "this"@.len()); }
        assert("i"@ != "that"@) by { assert("i"@.len() != "that"@.len()); }
        assert("i"@ != "these"@) by { assert("i"@.len() != "these"@.len()); }
        assert("i"@ != "those"@) by { assert("i"@.len() != "those"@.len()); }
    } else if p == "me"@ {
        reveal_strlit("me");
        reveal_strlit("the");
        reveal_strlit("a");
        reveal_strlit("an");
        reveal_strlit("this");
        reveal_strlit("that");
        reveal_strlit("these");
        reveal_strlit("those");
        assert("me"@ != "the"@) by { assert("me"@.len() != "the"@.len()); }
        assert("me"@ != "a"@) by { assert("me"@.len() != "a"@.len()); }
        assert("me"@ != "an"@) by { assert("me"@[0] != "an"@[0]); }
        assert("me"@ != "this"@) by { assert("me"@.len() != "this"@.len()); }
        assert("me"@ != "that"@) by { assert("me"@.len() != "that"@.len()); }
        assert("me"@ != "these"@) by { assert("me"@.len() != "these"@.len()); }
        assert("me"@ != "those"@) by { assert("me"@.len() != "those"@.len()); }
    } else if p == "my"@ {
        reveal_strlit("my");
        reveal_strlit("the");
        reveal_strlit("a");
        reveal_strlit("an");
        reveal_strlit("this");
        reveal_strlit("that");
        reveal_strlit("these");
        reveal_strlit("those");
        assert("my"@ != "the"@) by { assert("my"@.len() != "the"@.len()); }
        assert("my"@ != "a"@) by { assert("my"@.len() != "a"@.len()); }
        assert("my"@ != "an"@) by { assert("my"@[0] != "an"@[0]); }
        assert("my"@ != "this"@) by { assert("my"@.len() != "this"@.len()); }
        assert("my"@ != "that"@) by { assert("my"@.len() != "that"@.len()); }
        assert("my"@ != "these"@) by { assert("my"@.len() != "these"@.len()); }
        assert("my"@ != "those"@) by { assert("my"@.len() != "those"@.len()); }
    } else if p == "myself"@ {
        reveal_strlit("myself");
        reveal_strlit("the");
        reveal_strlit("a");
        reveal_strlit("an");
        reveal_strlit("this");
        reveal_strlit("that");
        reveal_strlit("these");
        reveal_strlit("those");
        assert("myself"@ != "the"@) by { assert("myself"@.len() != "the"@.len()); }
        assert("myself"@ != "a"@) by { assert("myself"@.len() != "a"@.len()); }
        assert("myself"@ != "an"@) by { assert("myself"@.len() != "an"@.len()); }
        assert("myself"@ != "this"@) by { assert("myself"@.len() != "this"@.len()); }
        assert("myself"@ != "that"@) by { assert("myself"@.len() != "that"@.len()); }
        assert("myself"@ != "these"@) by { assert("myself"@.len() != "these"@.len()); }
        assert("myself"@ != "those"@) by { assert("myself"@.len() != "those"@.len()); }
    } else if p == "you"@ {
        reveal_strlit("you");
        reveal_strlit("the");
        reveal_strlit("a");
        reveal_strlit("an");
        reveal_strlit("this");
        reveal_strlit("that");
        reveal_strlit("these");
        reveal_strlit("those");
        assert("you"@ != "the"@) by { assert("you"@[0] != "the"@[0]); }
        assert("you"@ != "a"@) by { assert("you"@.len() != "a"@.len()); }
        assert("you"@ != "an"@) by { assert("you"@.len() != "an"@.len()); }
        assert("you"@ != "this"@) by { assert("you"@.len() != "this"@.len()); }
        assert("you"@ != "that"@) by { assert("you"@.len() != "that"@.len()); }
        assert("you"@ != "these"@) by { assert("you"@.len() != "these"@.len()); }
        assert("you"@ != "those"@) by { assert("you"@.len() != "those"@.len()); }
    } else if p == "your"@ {
        reveal_strlit("your");
        reveal_strlit("the");
        reveal_strlit("a");
        reveal_strlit("an");
        reveal_strlit("this");
        reveal_strlit("that");
        reveal_strlit("these");
        reveal_strlit("those");
        assert("your"@ != "the"@) by { assert("your"@.len() != "the"@.len()); }
        assert("your"@ != "a"@) by { assert("your"@.len() != "a"@.len()); }
        assert("your"@ != "an"@) by { assert("your"@.len() != "an"@.len()); }
        assert("your"@ != "this"@) by { assert("your"@[0] != "this"@[0]); }
        assert("your"@ != "that"@) by { assert("your"@[0] != "that"@[0]); }
        assert("your"@ != "these"@) by { assert("your"@.len() != "these"@.len()); }
        assert("your"@ != "those"@) by { assert("your"@.len() != "those"@.len()); }
    } else if p == "yours"@ {
        reveal_strlit("yours");
        reveal_strlit("the");
        reveal_strlit("a");
        reveal_strlit("an");
        reveal_strlit("this");
        reveal_strlit("that");
        reveal_strlit("these");
        reveal_strlit("those");
        assert("yours"@ != "the"@) by { assert("yours"@.len() != "the"@.len()); }
        assert("yours"@ != "a"@) by { assert("yours"@.len() != "a"@.len()); }
        assert("yours"@ != "an"@) by { assert("yours"@.len() != "an"@.len()); }
        assert("yours"@ != "this"@) by { assert("yours"@.len() != "this"@.len()); }
        assert("yours"@ != "that"@) by { assert("yours"@.len() != "that"@.len()); }
        assert("yours"@ != "these"@) by { assert("yours"@[0] != "these"@[0]); }
        assert("yours"@ != "those"@) by { assert("yours"@[0] != "those"@[0]); }
    } else if p == "yourself"@ {
        reveal_strlit("yourself");
        reveal_strlit("the");
        reveal_strlit("a");
        reveal_strlit("an");
        reveal_strlit("this");
        reveal_strlit("that");
        reveal_strlit("these");
        reveal_strlit("those");
        assert("yourself"@ != "the"@) by { assert("yourself"@.len() != "the"@.len()); }
        assert("yourself"@ != "a"@) by { assert("yourself"@.len() != "a"@.len()); }
        assert("yourself"@ != "an"@) by { assert("yourself"@.len() != "an"@.len()); }
        assert("yourself"@ != "this"@) by { assert("yourself"@.len() != "this"@.len()); }
        assert("yourself"@ != "that"@) by { assert("yourself"@.len() != "that"@.len()); }
        assert("yourself"@ != "these"@) by { assert("yourself"@.len() != "these"@.len()); }
        assert("yourself"@ != "those"@) by { assert("yourself"@.len() != "those"@.len()); }
    } else if p == "he"@ {
        reveal_strlit("he");
        reveal_strlit("the");
        reveal_strlit("a");
        reveal_strlit("an");
        reveal_strlit("this");
        reveal_strlit("that");
        reveal_strlit("these");
        reveal_strlit("those");
        assert("he"@ != "the"@) by { assert("he"@.len() != "the"@.len()); }
        assert("he"@ != "a"@) by { assert("he"@.len() != "a"@.len()); }
        assert("he"@ != "an"@) by { assert("he"@[0] != "an"@[0]); }
        assert("he"@ != "this"@) by { assert("he"@.len() != "this"@.len()); }
        assert("he"@ != "that"@) by { assert("he"@.len() != "that"@.len()); }
        assert("he"@ != "these"@) by { assert("he"@.len() != "these"@.len()); }
        assert("he"@ != "those"@) by { assert("he"@.len() != "those"@.len()); }
    } else if p == "him"@ {
        reveal_strlit("him");
        reveal_strlit("the");
        reveal_strlit("a");
        reveal_strlit("an");
        reveal_strlit("this");
        reveal_strlit("that");
        reveal_strlit("these");
        reveal_strlit("those");
        assert("him"@ != "the"@) by { assert("him"@[0] != "the"@[0]); }
        assert("him"@ != "a"@) by { assert("him"@.len() != "a"@.len()); }
        assert("him"@ != "an"@) by { assert("him"@.len() != "an"@.len()); }
        assert("him"@ != "this"@) by { assert("him"@.len() != "this"@.len()); }
        assert("him"@ != "that"@) by { assert("him"@.len() != "that"@.len()); }
        assert("him"@ != "these"@) by { assert("him"@.len() != "these"@.len()); }
        assert("him"@ != "those"@) by { assert("him"@.len() != "those"@.len()); }
    } else if p == "his"@ {
        reveal_strlit("his");
        reveal_strlit("the");
        reveal_strlit("a");
        reveal_strlit("an");
        reveal_strlit("this");
        reveal_strlit("that");
        reveal_strlit("these");
        reveal_strlit("those");
        assert("his"@ != "the"@) by { assert("his"@[0] != "the"@[0]); }
        assert("his"@ != "a"@) by { assert("his"@.len() != "a"@.len()); }
        assert("his"@ != "an"@) by { assert("his"@.len() != "an"@.len()); }
        assert("his"@ != "this"@) by { assert("his"@.len() != "this"@.len()); }
        assert("his"@ != "that"@) by { assert("his"@.len() != "that"@.len()); }
        assert("his"@ != "these"@) by { assert("his"@.len() != "these"@.len()); }
        assert("his"@ != "those"@) by { assert("his"@.len() != "those"@.len()); }
    } else if p == "himself"@ {
        reveal_strlit("himself");
        reveal_strlit("the");
        reveal_strlit("a");
        reveal_strlit("an");
        reveal_strlit("this");
        reveal_strlit("that");
        reveal_strlit("these");
        reveal_strlit("those");
        assert("himself"@ != "the"@) by { assert("himself"@.len() != "the"@.len()); }
        assert("himself"@ != "a"@) by { assert("himself"@.len() != "a"@.len()); }
        assert("himself"@ != "an"@) by { assert("himself"@.len() != "an"@.len()); }
        assert("himself"@ != "this"@) by { assert("himself"@.len() != "this"@.len()); }
        assert("himself"@ != "that"@) by { assert("himself"@.len() != "that"@.len()); }
        assert("himself"@ != "these"@) by { assert("himself"@.len() != "these"@.len()); }
        assert("himself"@ != "those"@) by { assert("himself"@.len() != "those"@.len()); }
    } else if p == "she"@ {
        reveal_strlit("she");
        reveal_strlit("the");
        reveal_strlit("a");
        reveal_strlit("an");
        reveal_strlit("this");
        reveal_strlit("that");
        reveal_strlit("these");
        reveal_strlit("those");
        assert("she"@ != "the"@) by { assert("she"@[0] != "the"@[0]); }
        assert("she"@ != "a"@) by { assert("she"@.len() != "a"@.len()); }
        assert("she"@ != "an"@) by { assert("she"@.len() != "an"@.len()); }
        assert("she"@ != "this"@) by { assert("she"@.len() != "this"@.len()); }
        assert("she"@ != "that"@) by { assert("she"@.len() != "that"@.len()); }
        assert("she"@ != "these"@) by { assert("she"@.len() != "these"@.len()); }
        assert("she"@ != "those"@) by { assert("she"@.len() != "those"@.len()); }
    } else if p == "her"@ {
        reveal_strlit("her");
        reveal_strlit("the");
        reveal_strlit("a");
        reveal_strlit("an");
        reveal_strlit("this");
        reveal_strlit("that");
        reveal_strlit("these");
        reveal_strlit("those");
        assert("her"@ != "the"@) by { assert("her"@[0] != "the"@[0]); }
        assert("her"@ != "a"@) by { assert("her"@.len() != "a"@.len()); }
        assert("her"@ != "an"@) by { assert("her"@.len() != "an"@.len()); }
        assert("her"@ != "this"@) by { assert("her"@.len() != "this"@.len()); }
        assert("her"@ != "that"@) by { assert("her"@.len() != "that"@.len()); }
        assert("her"@ != "these"@) by { assert("her"@.len() != "these"@.len()); }
        assert("her"@ != "those"@) by { assert("her"@.len() != "those"@.len()); }
    } else if p == "hers"@ {
        reveal_strlit("hers");
        reveal_strlit("the");
        reveal_strlit("a");
        reveal_strlit("an");
        reveal_strlit("this");
        reveal_strlit("that");
        reveal_strlit("these");
        reveal_strlit("those");
        assert("hers"@ != "the"@) by { assert("hers"@.len() != "the"@.len()); }
        assert("hers"@ != "a"@) by { assert("hers"@.len() != "a"@.len()); }
        assert("hers"@ != "an"@) by { assert("hers"@.len() != "an"@.len()); }
        assert("hers"@ != "this"@) by { assert("hers"@[0] != "this"@[0]); }
        assert("hers"@ != "that"@) by { assert("hers"@[0] != "that"@[0]); }
        assert("hers"@ != "these"@) by { assert("hers"@.len() != "these"@.len()); }
        assert("hers"@ != "those"@) by { assert("hers"@.len() != "those"@.len()); }
    } else if p == "herself"@ {
        reveal_strlit("herself");
        reveal_strlit("the");
        reveal_strlit("a");
        reveal_strlit("an");
        reveal_strlit("this");
        reveal_strlit("that");
        reveal_strlit("these");
        reveal_strlit("those");
        assert("herself"@ != "the"@) by { assert("herself"@.len() != "the"@.len()); }
        assert("herself"@ != "a"@) by { assert("herself"@.len() != "a"@.len()); }
        assert("herself"@ != "an"@) by { assert("herself"@.len() != "an"@.len()); }
        assert("herself"@ != "this"@) by { assert("herself"@.len() != "this"@.len()); }
        assert("herself"@ != "that"@) by { assert("herself"@.len() != "that"@.len()); }
        assert("herself"@ != "these"@) by { assert("herself"@.len() != "these"@.len()); }
        assert("herself"@ != "those"@) by { assert("herself"@.len() != "those"@.len()); }
    } else if p == "it"@ {
        reveal_strlit("it");
        reveal_strlit("the");
        reveal_strlit("a");
        reveal_strlit("an");
        reveal_strlit("this");
        reveal_strlit("that");
        reveal_strlit("these");
        reveal_strlit("those");
        assert("it"@ != "the"@) by { assert("it"@.len() != "the"@.len()); }
        assert("it"@ != "a"@) by { assert("it"@.len() != "a"@.len()); }
        assert("it"@ != "an"@) by { assert("it"@[0] != "an"@[0]); }
        assert("it"@ != "this"@) by { assert("it"@.len() != "this"@.len()); }
        assert("it"@ != "that"@) by { assert("it"@.len() != "that"@.len()); }
        assert("it"@ != "these"@) by { assert("it"@.len() != "these"@.len()); }
        assert("it"@ != "those"@) by { assert("it"@.len() != "those"@.len()); }
    } else if p == "its"@ {
        reveal_strlit("its");
        reveal_strlit("the");
        reveal_strlit("a");
        reveal_strlit("an");
        reveal_strlit("this");
        reveal_strlit("that");
        reveal_strlit("these");
        reveal_strlit("those");
        assert("its"@ != "the"@) by { assert("its"@[0] != "the"@[0]); }
        assert("its"@ != "a"@) by { assert("its"@.len() != "a"@.len()); }
        assert("its"@ != "an"@) by { assert("its"@.len() != "an"@.len()); }
        assert("its"@ != "this"@) by { assert("its"@.len() != "this"@.len()); }
        assert("its"@ != "that"@) by { assert("its"@.len() != "that"@.len()); }
        assert("its"@ != "these"@) by { assert("its"@.len() != "these"@.len()); }
        assert("its"@ != "those"@) by { assert("its"@.len() != "those"@.len()); }
    } else if p == "itself"@ {
        reveal_strlit("itself");
        reveal_strlit("the");
        reveal_strlit("a");
        reveal_strlit("an");
        reveal_strlit("this");
        reveal_strlit("that");
        reveal_strlit("these");
        reveal_strlit("those");
        assert("itself"@ != "the"@) by { assert("itself"@.len() != "the"@.len()); }
        assert("itself"@ != "a"@) by { assert("itself"@.len() != "a"@.len()); }
        assert("itself"@ != "an"@) by { assert("itself"@.len() != "an"@.len()); }
        assert("itself"@ != "this"@) by { assert("itself"@.len() != "this"@.len()); }
        assert("itself"@ != "that"@) by { assert("itself"@.len() != "that"@.len()); }
        assert("itself"@ != "these"@) by { assert("itself"@.len() != "these"@.len()); }
        assert("itself"@ != "those"@) by { assert("itself"@.len() != "those"@.len()); }
    } else if p == "we"@ {
        reveal_strlit("we");
        reveal_strlit("the");
        reveal_strlit("a");
        reveal_strlit("an");
        reveal_strlit("this");
        reveal_strlit("that");
        reveal_strlit("these");
        reveal_strlit("those");
        assert("we"@ != "the"@) by { assert("we"@.len() != "the"@.len()); }
        assert("we"@ != "a"@) by { assert("we"@.len() != "a"@.len()); }
        assert("we"@ != "an"@) by { assert("we"@[0] != "an"@[0]); }
        assert("we"@ != "this"@) by { assert("we"@.len() != "this"@.len()); }
        assert("we"@ != "that"@) by { assert("we"@.len() != "that"@.len()); }
        assert("we"@ != "these"@) by { assert("we"@.len() != "these"@.len()); }
        assert("we"@ != "those"@) by { assert("we"@.len() != "those"@.len()); }
    } else if p == "us"@ {
        reveal_strlit("us");
        reveal_strlit("the");
        reveal_strlit("a");
        reveal_strlit("an");
        reveal_strlit("this");
        reveal_strlit("that");
        reveal_strlit("these");
        reveal_strlit("those");
        assert("us"@ != "the"@) by { assert("us"@.len() != "the"@.len()); }
        assert("us"@ != "a"@) by { assert("us"@.len() != "a"@.len()); }
        assert("us"@ != "an"@) by { assert("us"@[0] != "an"@[0]); }
        assert("us"@ != "this"@) by { assert("us"@.len() != "this"@.len()); }
        assert("us"@ != "that"@) by { assert("us"@.len() != "that"@.len()); }
        assert("us"@ != "these"@) by { assert("us"@.len() != "these"@.len()); }
        assert("us"@ != "those"@) by { assert("us"@.len() != "those"@.len()); }
    } else if p == "our"@ {
        reveal_strlit("our");
        reveal_strlit("the");
        reveal_strlit("a");
        reveal_strlit("an");
        reveal_strlit("this");
        reveal_strlit("that");
        reveal_strlit("these");
        reveal_strlit("those");
        assert("our"@ != "the"@) by { assert("our"@[0] != "the"@[0]); }
        assert("our"@ != "a"@) by { assert("our"@.len() != "a"@.len()); }
        assert("our"@ != "an"@) by { assert("our"@.len() != "an"@.len()); }
        assert("our"@ != "this"@) by { assert("our"@.len() != "this"@.len()); }
        assert("our"@ != "that"@) by { assert("our"@.len() != "that"@.len()); }
        assert("our"@ != "these"@) by { assert("our"@.len() != "these"@.len()); }
        assert("our"@ != "those"@) by { assert("our"@.len() != "those"@.len()); }
    } else if p == "ours"@ {
        reveal_strlit("ours");
        reveal_strlit("the");
        reveal_strlit("a");
        reveal_strlit("an");
        reveal_strlit("this");
        reveal_strlit("that");
        reveal_strlit("these");
        reveal_strlit("those");
        assert("ours"@ != "the"@) by { assert("ours"@.len() != "the"@.len()); }
        assert("ours"@ != "a"@) by { assert("ours"@.len() != "a"@.len()); }
        assert("ours"@ != "an"@) by { assert("ours"@.len() != "an"@.len()); }
        assert("ours"@ != "this"@) by { assert("ours"@[0] != "this"@[0]); }
        assert("ours"@ != "that"@) by { assert("ours"@[0] != "that"@[0]); }
        assert("ours"@ != "these"@) by { assert("ours"@.len() != "these"@.len()); }
        assert("ours"@ != "those"@) by { assert("ours"@.len() != "those"@.len()); }
    } else if p == "ourselves"@ {
        reveal_strlit("ourselves");
        reveal_strlit("the");
        reveal_strlit("a");
        reveal_strlit("an");
        reveal_strlit("this");
        reveal_strlit("that");
        reveal_strlit("these");
        reveal_strlit("those");
        assert("ourselves"@ != "the"@) by { assert("ourselves"@.len() != "the"@.len()); }
        assert("ourselves"@ != "a"@) by { assert("ourselves"@.len() != "a"@.len()); }
        assert("ourselves"@ != "an"@) by { assert("ourselves"@.len() != "an"@.len()); }
        assert("ourselves"@ != "this"@) by { assert("ourselves"@.len() != "this"@.len()); }
        assert("ourselves"@ != "that"@) by { assert("ourselves"@.len() != "that"@.len()); }
        assert("ourselves"@ != "these"@) by { assert("ourselves"@.len() != "these"@.len()); }
        assert("ourselves"@ != "those"@) by { assert("ourselves"@.len() != "those"@.len()); }
    } else if p == "they"@ {
        reveal_strlit("they");
        reveal_strlit("the");
        reveal_strlit("a");
        reveal_strlit("an");
        reveal_strlit("this");
        reveal_strlit("that");
        reveal_strlit("these");
        reveal_strlit("those");
        assert("they"@ != "the"@) by { assert("they"@.len() != "the"@.len()); }
        assert("they"@ != "a"@) by { assert("they"@.len() != "a"@.len()); }
        assert("they"@ != "an"@) by { assert("they"@.len() != "an"@.len()); }
        assert("they"@ != "this"@) by { assert("they"@[2] != "this"@[2]); }
        assert("they"@ != "that"@) by { assert("they"@[2] != "that"@[2]); }
        assert("they"@ != "these"@) by { assert("they"@.len() != "these"@.len()); }
        assert("they"@ != "those"@) by { assert("they"@.len() != "those"@.len()); }
    } else if p == "them"@ {
        reveal_strlit("them");
        reveal_strlit("the");
        reveal_strlit("a");
        reveal_strlit("an");
        reveal_strlit("this");
        reveal_strlit("that");
        reveal_strlit("these");
        reveal_strlit("those");
        assert("them"@ != "the"@) by { assert("them"@.len() != "the"@.len()); }
        assert("them"@ != "a"@) by { assert("them"@.len() != "a"@.len()); }
        assert("them"@ != "an"@) by { assert("them"@.len() != "an"@.len()); }
        assert("them"@ != "this"@) by { assert("them"@[2] != "this"@[2]); }
        assert("them"@ != "that"@) by { assert("them"@[2] != "that"@[2]); }
        assert("them"@ != "these"@) by { assert("them"@.len() != "these"@.len()); }
        assert("them"@ != "those"@) by { assert("them"@.len() != "those"@.len()); }
    } else if p == "their"@ {
        reveal_strlit("their");
        reveal_strlit("the");
        reveal_strlit("a");
        reveal_strlit("an");
        reveal_strlit("this");
        reveal_strlit("that");
        reveal_strlit("these");
        reveal_strlit("those");
        assert("their"@ != "the"@) by { assert("their"@.len() != "the"@.len()); }
        assert("their"@ != "a"@) by { assert("their"@.len() != "a"@.len()); }
        assert("their"@ != "an"@) by { assert("their"@.len() != "an"@.len()); }
        assert("their"@ != "this"@) by { assert("their"@.len() != "this"@.len()); }
        assert("their"@ != "that"@) by { assert("their"@.len() != "that"@.len()); }
        assert("their"@ != "these"@) by { assert("their"@[3] != "these"@[3]); }
        assert("their"@ != "those"@) by { assert("their"@[2] != "those"@[2]); }
    } else if p == "theirs"@ {
        reveal_strlit("theirs");
        reveal_strlit("the");
        reveal_strlit("a");
        reveal_strlit("an");
        reveal_strlit("this");
        reveal_strlit("that");
        reveal_strlit("these");
        reveal_strlit("those");
        assert("theirs"@ != "the"@) by { assert("theirs"@.len() != "the"@.len()); }
        assert("theirs"@ != "a"@) by { assert("theirs"@.len() != "a"@.len()); }
        assert("theirs"@ != "an"@) by { assert("theirs"@.len() != "an"@.len()); }
        assert("theirs"@ != "this"@) by { assert("theirs"@.len() != "this"@.len()); }
        assert("theirs"@ != "that"@) by { assert("theirs"@.len() != "that"@.len()); }
        assert("theirs"@ != "these"@) by { assert("theirs"@.len() != "these"@.len()); }
        assert("theirs"@ != "those"@) by { assert("theirs"@.len() != "those"@.len()); }
    } else if p == "themselves"@ {
        reveal_strlit("themselves");
        reveal_strlit("the");
        reveal_strlit("a");
        reveal_strlit("an");
        reveal_strlit("this");
        reveal_strlit("that");
        reveal_strlit("these");
        reveal_strlit("those");
        assert("themselves"@ != "the"@) by { assert("themselves"@.len() != "the"@.len()); }
        assert("themselves"@ != "a"@) by { assert("themselves"@.len() != "a"@.len()); }
        assert("themselves"@ != "an"@) by { assert("themselves"@.len() != "an"@.len()); }
        assert("themselves"@ != "this"@) by { assert("themselves"@.len() != "this"@.len()); }
        assert("themselves"@ != "that"@) by { assert("themselves"@.len() != "that"@.len()); }
        assert("themselves"@ != "these"@) by { assert("themselves"@.len() != "these"@.len()); }
        assert("themselves"@ != "those"@) by { assert("themselves"@.len() != "those"@.len()); }
    } else if p == "who"@ {
        reveal_strlit("who");
        reveal_strlit("the");
        reveal_strlit("a");
        reveal_strlit("an");
        reveal_strlit("this");
        reveal_strlit("that");
        reveal_strlit("these");
        reveal_strlit("those");
        assert("who"@ != "the"@) by { assert("who"@[0] != "the"@[0]); }
        assert("who"@ != "a"@) by { assert("who"@.len() != "a"@.len()); }
        assert("who"@ != "an"@) by { assert("who"@.len() != "an"@.len()); }
        assert("who"@ != "this"@) by { assert("who"@.len() != "this"@.len()); }
        assert("who"@ != "that"@) by { assert("who"@.len() != "that"@.len()); }
        assert("who"@ != "these"@) by { assert("who"@.len() != "these"@.len()); }
        assert("who"@ != "those"@) by { assert("who"@.len() != "those"@.len()); }
    } else if p == "whom"@ {
        reveal_strlit("whom");
        reveal_strlit("the");
        reveal_strlit("a");
        reveal_strlit("an");
        reveal_strlit("this");
        reveal_strlit("that");
        reveal_strlit("these");
        reveal_strlit("those");
        assert("whom"@ != "the"@) by { assert("whom"@.len() != "the"@.len()); }
        assert("whom"@ != "a"@) by { assert("whom"@.len() != "a"@.len()); }
        assert("whom"@ != "an"@) by { assert("whom"@.len() != "an"@.len()); }
        assert("whom"@ != "this"@) by { assert("whom"@[0] != "this"@[0]); }
        assert("whom"@ != "that"@) by { assert("whom"@[0] != "that"@[0]); }
        assert("whom"@ != "these"@) by { assert("whom"@.len() != "these"@.len()); }
        assert("whom"@ != "those"@) by { assert("whom"@.len() != "those"@.len()); }
    } else if p == "whose"@ {
        reveal_strlit("whose");
        reveal_strlit("the");
        reveal_strlit("a");
        reveal_strlit("an");
        reveal_strlit("this");
        reveal_strlit("that");
        reveal_strlit("these");
        reveal_strlit("those");
        assert("whose"@ != "the"@) by { assert("whose"@.len() != "the"@.len()); }
        assert("whose"@ != "a"@) by { assert("whose"@.len() != "a"@.len()); }
        assert("whose"@ != "an"@) by { assert("whose"@.len() != "an"@.len()); }
        assert("whose"@ != "this"@) by { assert("whose"@.len() != "this"@.len()); }
        assert("whose"@ != "that"@) by { assert("whose"@.len() != "that"@.len()); }
        assert("whose"@ != "these"@) by { assert("whose"@[0] != "these"@[0]); }
        assert("whose"@ != "those"@) by { assert("whose"@[0] != "those"@[0]); }
    } else if p == "which"@ {
        reveal_strlit("which");
        reveal_strlit("the");
        reveal_strlit("a");
        reveal_strlit("an");
        reveal_strlit("this");
        reveal_strlit("that");
        reveal_strlit("these");
        reveal_strlit("those");
        assert("which"@ != "the"@) by { assert("which"@.len() != "the"@.len()); }
        assert("which"@ != "a"@) by { assert("which"@.len() != "a"@.len()); }
        assert("which"@ != "an"@) by { assert("which"@.len() != "an"@.len()); }
        assert("which"@ != "this"@) by { assert("which"@.len() != "this"@.len()); }
        assert("which"@ != "that"@) by { assert("which"@.len() != "that"@.len()); }
        assert("which"@ != "these"@) by { assert("which"@[0] != "these"@[0]); }
        assert("which"@ != "those"@) by { assert("which"@[0] != "those"@[0]); }
    } else if p == "what"@ {
        reveal_strlit("what");
        reveal_strlit("the");
        reveal_strlit("a");
        reveal_strlit("an");
        reveal_strlit("this");
        reveal_strlit("that");
        reveal_strlit("these");
        reveal_strlit("those");
        assert("what"@ != "the"@) by { assert("what"@.len() != "the"@.len()); }
        assert("what"@ != "a"@) by { assert("what"@.len() != "a"@.len()); }
        assert("what"@ != "an"@) by { assert("what"@.len() != "an"@.len()); }
        assert("what"@ != "this"@) by { assert("what"@[0] != "this"@[0]); }
        assert("what"@ != "that"@) by { assert("what"@[0] != "that"@[0]); }
        assert("what"@ != "these"@) by { assert("what"@.len() != "these"@.len()); }
        assert("what"@ != "those"@) by { assert("what"@.len() != "those"@.len()); }
    }
}

proof fn lemma_to_is_no_earlier_class()
    ensures
        !determiner("to"@),
        !pronoun("to"@),
{
    reveal_strlit("to");
    reveal_strlit("the");
    reveal_strlit("a");
    reveal_strlit("an");
    reveal_strlit("this");
    reveal_strlit("that");
    reveal_strlit("these");
    reveal_strlit("those");
    reveal_strlit("i");
    reveal_strlit("me");
    reveal_strlit("my");
    reveal_strlit("myself");
    reveal_strlit("you");
    reveal_strlit("your");
    reveal_strlit("yours");
    reveal_strlit("yourself");
    reveal_strlit("he");
    reveal_strlit("him");
    reveal_strlit("his");
    reveal_strlit("himself");
    reveal_strlit("she");
    reveal_strlit("her");
    reveal_strlit("hers");
    reveal_strlit("herself");
    reveal_strlit("it");
    reveal_strlit("its");
    reveal_strlit("itself");
    reveal_strlit("we");
    reveal_strlit("us");
    reveal_strlit("our");
    reveal_strlit("ours");
    reveal_strlit("ourselves");
    reveal_strlit("they");
    reveal_strlit("them");
    reveal_strlit("their");
    reveal_strlit("theirs");
    reveal_strlit("themselves");
    reveal_strlit("who");
    reveal_strlit("whom");
    reveal_strlit("whose");
    reveal_strlit("which");
    reveal_strlit("what");
    assert("to"@ != "the"@) by { assert("to"@.len() != "the"@.len()); }
    assert("to"@ != "a"@) by { assert("to"@.len() != "a"@.len()); }
    assert("to"@ != "an"@) by { assert("to"@[0] != "an"@[0]); }
    assert("to"@ != "this"@) by { assert("to"@.len() != "this"@.len()); }
    assert("to"@ != "that"@) by { assert("to"@.len() != "that"@.len()); }
    assert("to"@ != "these"@) by { assert("to"@.len() != "these"@.len()); }
    assert("to"@ != "those"@) by { assert("to"@.len() != "those"@.len()); }
    assert("to"@ != "i"@) by { assert("to"@.len() != "i"@.len()); }
    assert("to"@ != "me"@) by { assert("to"@[0] != "me"@[0]); }
    assert("to"@ != "my"@) by { assert("to"@[0] != "my"@[0]); }
    assert("to"@ != "myself"@) by { assert("to"@.len() != "myself"@.len()); }
    assert("to"@ != "you"@) by { assert("to"@.len() != "you"@.len()); }
    assert("to"@ != "your"@) by { assert("to"@.len() != "your"@.len()); }
    assert("to"@ != "yours"@) by { assert("to"@.len() != "yours"@.len()); }
    assert("to"@ != "yourself"@) by { assert("to"@.len() != "yourself"@.len()); }
    assert("to"@ != "he"@) by { assert("to"@[0] != "he"@[0]); }
    assert("to"@ != "him"@) by { assert("to"@.len() != "him"@.len()); }
    assert("to"@ != "his"@) by { assert("to"@.len() != "his"@.len()); }
    assert("to"@ != "himself"@) by { assert("to"@.len() != "himself"@.len()); }
    assert("to"@ != "she"@) by { assert("to"@.len() != "she"@.len()); }
    assert("to"@ != "her"@) by { assert("to"@.len() != "her"@.len()); }
    assert("to"@ != "hers"@) by { assert("to"@.len() != "hers"@.len()); }
    assert("to"@ != "herself"@) by { assert("to"@.len() != "herself"@.len()); }
    assert("to"@ != "it"@) by { assert("to"@[0] != "it"@[0]); }
    assert("to"@ != "its"@) by { assert("to"@.len() != "its"@.len()); }
    assert("to"@ != "itself"@) by { assert("to"@.len() != "itself"@.len()); }
    assert("to"@ != "we"@) by { assert("to"@[0] != "we"@[0]); }
    assert("to"@ != "us"@) by { assert("to"@[0] != "us"@[0]); }
    assert("to"@ != "our"@) by { assert("to"@.len() != "our"@.len()); }
    assert("to"@ != "ours"@) by { assert("to"@.len() != "ours"@.len()); }
    assert("to"@ != "ourselves"@) by { assert("to"@.len() != "ourselves"@.len()); }
    assert("to"@ != "they"@) by { assert("to"@.len() != "they"@.len()); }
    assert("to"@ != "them"@) by { assert("to"@.len() != "them"@.len()); }
    assert("to"@ != "their"@) by { assert("to"@.len() != "their"@.len()); }
    assert("to"@ != "theirs"@) by { assert("to"@.len() != "theirs"@.len()); }
    assert("to"@ != "themselves"@) by { assert("to"@.len() != "themselves"@.len()); }
    assert("to"@ != "who"@) by { assert("to"@.len() != "who"@.len()); }
    assert("to"@ != "whom"@) by { assert("to"@.len() != "whom"@.len()); }
    assert("to"@ != "whose"@) by { assert("to"@.len() != "whose"@.len()); }
    assert("to"@ != "which"@) by { assert("to"@.len() != "which"@.len()); }
    assert("to"@ != "what"@) by { assert("to"@.len() != "what"@.len()); }
}

proof fn lemma_conjunction_is_no_earlier_class(p: Seq<char>)
    requires
        listed_conjunction(p),
    ensures
        !determiner(p),
        !pronoun(p),
        p != "to"@,
        !preposition(p),
        conjunction(p),
{
    if p == "and"@ {
        reveal_strlit("and");
        reveal_strlit("the");
        reveal_strlit("a");
        reveal_strlit("an");
        reveal_strlit("this");
        reveal_strlit("that");
        reveal_strlit("these");
        reveal_strlit("those");
        reveal_strlit("i");
        reveal_strlit("me");
        reveal_strlit("my");
        reveal_strlit("myself");
        reveal_strlit("you");
        reveal_strlit("your");
        reveal_strlit("yours");
        reveal_strlit("yourself");
        reveal_strlit("he");
        reveal_strlit("him");
        reveal_strlit("his");
        reveal_strlit("himself");
        reveal_strlit("she");
        reveal_strlit("her");
        reveal_strlit("hers");
        reveal_strlit("herself");
        reveal_strlit("it");
        reveal_strlit("its");
        reveal_strlit("itself");
        reveal_strlit("we");
        reveal_strlit("us");
        reveal_strlit("our");
        reveal_strlit("ours");
        reveal_strlit("ourselves");
        reveal_strlit("they");
        reveal_strlit("them");
        reveal_strlit("their");
        reveal_strlit("theirs");
        reveal_strlit("themselves");
        reveal_strlit("who");
        reveal_strlit("whom");
        reveal_strlit("whose");
        reveal_strlit("which");
        reveal_strlit("what");
        reveal_strlit("to");
        reveal_strlit("in");
        reveal_strlit("on");
        reveal_strlit("at");
        reveal_strlit("by");
        reveal_strlit("for");
        reveal_strlit("with");
        reveal_strlit("about");
        reveal_strlit("against");
        reveal_strlit("between");
        reveal_strlit("into");
        reveal_strlit("through");
        reveal_strlit("during");
        reveal_strlit("before");
        reveal_strlit("after");
        reveal_strlit("above");
        reveal_strlit("below");
        reveal_strlit("from");
        reveal_strlit("of");
        assert("and"@ != "the"@) by { assert("and"@[0] != "the"@[0]); }
        assert("and"@ != "a"@) by { assert("and"@.len() != "a"@.len()); }
        assert("and"@ != "an"@) by { assert("and"@.len() != "an"@.len()); }
        assert("and"@ != "this"@) by { assert("and"@.len() != "this"@.len()); }
        assert("and"@ != "that"@) by { assert("and"@.len() != "that"@.len()); }
        assert("and"@ != "these"@) by { assert("and"@.len() != "these"@.len()); }
        assert("and"@ != "those"@) by { assert("and"@.len() != "those"@.len()); }
        assert("and"@ != "i"@) by { assert("and"@.len() != "i"@.len()); }
        assert("and"@ != "me"@) by { assert("and"@.len() != "me"@.len()); }
        assert("and"@ != "my"@) by { assert("and"@.len() != "my"@.len()); }
        assert("and"@ != "myself"@) by { assert("and"@.len() != "myself"@.len()); }
        assert("and"@ != "you"@) by { assert("and"@[0] != "you"@[0]); }
        assert("and"@ != "your"@) by { assert("and"@.len() != "your"@.len()); }
        assert("and"@ != "yours"@) by { assert("and"@.len() != "yours"@.len()); }
        assert("and"@ != "yourself"@) by { assert("and"@.len() != "yourself"@.len()); }
        assert("and"@ != "he"@) by { assert("and"@.len() != "he"@.len()); }
        assert("and"@ != "him"@) by { assert("and"@[0] != "him"@[0]); }
        assert("and"@ != "his"@) by { assert("and"@[0] != "his"@[0]); }
        assert("and"@ != "himself"@) by { assert("and"@.len() != "himself"@.len()); }
        assert("and"@ != "she"@) by { assert("and"@[0] != "she"@[0]); }
        assert("and"@ != "her"@) by { assert("and"@[0] != "her"@[0]); }
        assert("and"@ != "hers"@) by { assert("and"@.len() != "hers"@.len()); }
        assert("and"@ != "herself"@) by { assert("and"@.len() != "herself"@.len()); }
        assert("and"@ != "it"@) by { assert("and"@.len() != "it"@.len()); }
        assert("and"@ != "its"@) by { assert("and"@[0] != "its"@[0]); }
        assert("and"@ != "itself"@) by { assert("and"@.len() != "itself"@.len()); }
        assert("and"@ != "we"@) by { assert("and"@.len() != "we"@.len()); }
        assert("and"@ != "us"@) by { assert("and"@.len() != "us"@.len()); }
        assert("and"@ != "our"@) by { assert("and"@[0] != "our"@[0]); }
        assert("and"@ != "ours"@) by { assert("and"@.len() != "ours"@.len()); }
        assert("and"@ != "ourselves"@) by { assert("and"@.len() != "ourselves"@.len()); }
        assert("and"@ != "they"@) by { assert("and"@.len() != "they"@.len()); }
        assert("and"@ != "them"@) by { assert("and"@.len() != "them"@.len()); }
        assert("and"@ != "their"@) by { assert("and"@.len() != "their"@.len()); }
        assert("and"@ != "theirs"@) by { assert("and"@.len() != "theirs"@.len()); }
        assert("and"@ != "themselves"@) by { assert("and"@.len() != "themselves"@.len()); }
        assert("and"@ != "who"@) by { assert("and"@[0] != "who"@[0]); }
        assert("and"@ != "whom"@) by { assert("and"@.len() != "whom"@.len()); }
        assert("and"@ != "whose"@) by { assert("and"@.len() != "whose"@.len()); }
        assert("and"@ != "which"@) by { assert("and"@.len() != "which"@.len()); }
        assert("and"@ != "what"@) by { assert("and"@.len() != "what"@.len()); }
        assert("and"@ != "to"@) by { assert("and"@.len() != "to"@.len()); }
        assert("and"@ != "in"@) by { assert("and"@.len() != "in"@.len()); }
        assert("and"@ != "on"@) by { assert("and"@.len() != "on"@.len()); }
        assert("and"@ != "at"@) by { assert("and"@.len() != "at"@.len()); }
        assert("and"@ != "by"@) by { assert("and"@.len() != "by"@.len()); }
        assert("and"@ != "for"@) by { assert("and"@[0] != "for"@[0]); }
        assert("and"@ != "with"@) by { assert("and"@.len() != "with"@.len()); }
        assert("and"@ != "about"@) by { assert("and"@.len() != "about"@.len()); }
        assert("and"@ != "against"@) by { assert("and"@.len() != "against"@.len()); }
        assert("and"@ != "between"@) by { assert("and"@.len() != "between"@.len()); }
        assert("and"@ != "into"@) by { assert("and"@.len() != "into"@.len()); }
        assert("and"@ != "through"@) by { assert("and"@.len() != "through"@.len()); }
        assert("and"@ != "during"@) by { assert("and"@.len() != "during"@.len()); }
        assert("and"@ != "before"@) by { assert("and"@.len() != "before"@.len()); }
        assert("and"@ != "after"@) by { assert("and"@.len() != "after"@.len()); }
        assert("and"@ != "above"@) by { assert("and"@.len() != "above"@.len()); }
        assert("and"@ != "below"@) by { assert("and"@.len() != "below"@.len()); }
        assert("and"@ != "from"@) by { assert("and"@.len() != "from"@.len()); }
        assert("and"@ != "of"@) by { assert("and"@.len() != "of"@.len()); }
    } else if p == "but"@ {
        reveal_strlit("but");
        reveal_strlit("the");
        reveal_strlit("a");
        reveal_strlit("an");
        reveal_strlit("this");
        reveal_strlit("that");
        reveal_strlit("these");
        reveal_strlit("those");
        reveal_strlit("i");
        reveal_strlit("me");
        reveal_strlit("my");
        reveal_strlit("myself");
        reveal_strlit("you");
        reveal_strlit("your");
        reveal_strlit("yours");
        reveal_strlit("yourself");
        reveal_strlit("he");
        reveal_strlit("him");
        reveal_strlit("his");
        reveal_strlit("himself");
        reveal_strlit("she");
        reveal_strlit("her");
        reveal_strlit("hers");
        reveal_strlit("herself");
        reveal_strlit("it");
        reveal_strlit("its");
        reveal_strlit("itself");
        reveal_strlit("we");
        reveal_strlit("us");
        reveal_strlit("our");
        reveal_strlit("ours");
        reveal_strlit("ourselves");
        reveal_strlit("they");
        reveal_strlit("them");
        reveal_strlit("their");
        reveal_strlit("theirs");
        reveal_strlit("themselves");
        reveal_strlit("who");
        reveal_strlit("whom");
        reveal_strlit("whose");
        reveal_strlit("which");
        reveal_strlit("what");
        reveal_strlit("to");
        reveal_strlit("in");
        reveal_strlit("on");
        reveal_strlit("at");
        reveal_strlit("by");
        reveal_strlit("for");
        reveal_strlit("with");
        reveal_strlit("about");
        reveal_strlit("against");
        reveal_strlit("between");
        reveal_strlit("into");
        reveal_strlit("through");
        reveal_strlit("during");
        reveal_strlit("before");
        reveal_strlit("after");
        reveal_strlit("above");
        reveal_strlit("below");
        reveal_strlit("from");
        reveal_strlit("of");
        assert("but"@ != "the"@) by { assert("but"@[0] != "the"@[0]); }
        assert("but"@ != "a"@) by { assert("but"@.len() != "a"@.len()); }
        assert("but"@ != "an"@) by { assert("but"@.len() != "an"@.len()); }
        assert("but"@ != "this"@) by { assert("but"@.len() != "this"@.len()); }
        assert("but"@ != "that"@) by { assert("but"@.len() != "that"@.len()); }
        assert("but"@ != "these"@) by { assert("but"@.len() != "these"@.len()); }
        assert("but"@ != "those"@) by { assert("but"@.len() != "those"@.len()); }
        assert("but"@ != "i"@) by { assert("but"@.len() != "i"@.len()); }
        assert("but"@ != "me"@) by { assert("but"@.len() != "me"@.len()); }
        assert("but"@ != "my"@) by { assert("but"@.len() != "my"@.len()); }
        assert("but"@ != "myself"@) by { assert("but"@.len() != "myself"@.len()); }
        assert("but"@ != "you"@) by { assert("but"@[0] != "you"@[0]); }
        assert("but"@ != "your"@) by { assert("but"@.len() != "your"@.len()); }
        assert("but"@ != "yours"@) by { assert("but"@.len() != "yours"@.len()); }
        assert("but"@ != "yourself"@) by { assert("but"@.len() != "yourself"@.len()); }
        assert("but"@ != "he"@) by { assert("but"@.len() != "he"@.len()); }
        assert("but"@ != "him"@) by { assert("but"@[0] != "him"@[0]); }
        assert("but"@ != "his"@) by { assert("but"@[0] != "his"@[0]); }
        assert("but"@ != "himself"@) by { assert("but"@.len() != "himself"@.len()); }
        assert("but"@ != "she"@) by { assert("but"@[0] != "she"@[0]); }
        assert("but"@ != "her"@) by { assert("but"@[0] != "her"@[0]); }
        assert("but"@ != "hers"@) by { assert("but"@.len() != "hers"@.len()); }
        assert("but"@ != "herself"@) by { assert("but"@.len() != "herself"@.len()); }
        assert("but"@ != "it"@) by { assert("but"@.len() != "it"@.len()); }
        assert("but"@ != "its"@) by { assert("but"@[0] != "its"@[0]); }
        assert("but"@ != "itself"@) by { assert("but"@.len() != "itself"@.len()); }
        assert("but"@ != "we"@) by { assert("but"@.len() != "we"@.len()); }
        assert("but"@ != "us"@) by { assert("but"@.len() != "us"@.len()); }
        assert("but"@ != "our"@) by { assert("but"@[0] != "our"@[0]); }
        assert("but"@ != "ours"@) by { assert("but"@.len() != "ours"@.len()); }
        assert("but"@ != "ourselves"@) by { assert("but"@.len() != "ourselves"@.len()); }
        assert("but"@ != "they"@) by { assert("but"@.len() != "they"@.len()); }
        assert("but"@ != "them"@) by { assert("but"@.len() != "them"@.len()); }
        assert("but"@ != "their"@) by { assert("but"@.len() != "their"@.len()); }
        assert("but"@ != "theirs"@) by { assert("but"@.len() != "theirs"@.len()); }
        assert("but"@ != "themselves"@) by { assert("but"@.len() != "themselves"@.len()); }
        assert("but"@ != "who"@) by { assert("but"@[0] != "who"@[0]); }
        assert("but"@ != "whom"@) by { assert("but"@.len() != "whom"@.len()); }
        assert("but"@ != "whose"@) by { assert("but"@.len() != "whose"@.len()); }
        assert("but"@ != "which"@) by { assert("but"@.len() != "which"@.len()); }
        assert("but"@ != "what"@) by { assert("but"@.len() != "what"@.len()); }
        assert("but"@ != "to"@) by { assert("but"@.len() != "to"@.len()); }
        assert("but"@ != "in"@) by { assert("but"@.len() != "in"@.len()); }
        assert("but"@ != "on"@) by { assert("but"@.len() != "on"@.len()); }
        assert("but"@ != "at"@) by { assert("but"@.len() != "at"@.len()); }
        assert("but"@ != "by"@) by { assert("but"@.len() != "by"@.len()); }
        assert("but"@ != "for"@) by { assert("but"@[0] != "for"@[0]); }
        assert("but"@ != "with"@) by { assert("but"@.len() != "with"@.len()); }
        assert("but"@ != "about"@) by { assert("but"@.len() != "about"@.len()); }
        assert("but"@ != "against"@) by { assert("but"@.len() != "against"@.len()); }
        assert("but"@ != "between"@) by { assert("but"@.len() != "between"@.len()); }
        assert("but"@ != "into"@) by { assert("but"@.len() != "into"@.len()); }
        assert("but"@ != "through"@) by { assert("but"@.len() != "through"@.len()); }
        assert("but"@ != "during"@) by { assert("but"@.len() != "during"@.len()); }
        assert("but"@ != "before"@) by { assert("but"@.len() != "before"@.len()); }
        assert("but"@ != "after"@) by { assert("but"@.len() != "after"@.len()); }
        assert("but"@ != "above"@) by { assert("but"@.len() != "above"@.len()); }
        assert("but"@ != "below"@) by { assert("but"@.len() != "below"@.len()); }
        assert("but"@ != "from"@) by { assert("but"@.len() != "from"@.len()); }
        assert("but"@ != "of"@) by { assert("but"@.len() != "of"@.len()); }
    } else if p == "or"@ {
        reveal_strlit("or");
        reveal_strlit("the");
        reveal_strlit("a");
        reveal_strlit("an");
        reveal_strlit("this");
        reveal_strlit("that");
        reveal_strlit("these");
        reveal_strlit("those");
        reveal_strlit("i");
        reveal_strlit("me");
        reveal_strlit("my");
        reveal_strlit("myself");
        reveal_strlit("you");
        reveal_strlit("your");
        reveal_strlit("yours");
        reveal_strlit("yourself");
        reveal_strlit("he");
        reveal_strlit("him");
        reveal_strlit("his");
        reveal_strlit("himself");
        reveal_strlit("she");
        reveal_strlit("her");
        reveal_strlit("hers");
        reveal_strlit("herself");
        reveal_strlit("it");
        reveal_strlit("its");
        reveal_strlit("itself");
        reveal_strlit("we");
        reveal_strlit("us");
        reveal_strlit("our");
        reveal_strlit("ours");
        reveal_strlit("ourselves");
        reveal_strlit("they");
        reveal_strlit("them");
        reveal_strlit("their");
        reveal_strlit("theirs");
        reveal_strlit("themselves");
        reveal_strlit("who");
        reveal_strlit("whom");
        reveal_strlit("whose");
        reveal_strlit("which");
        reveal_strlit("what");
        reveal_strlit("to");
        reveal_strlit("in");
        reveal_strlit("on");
        reveal_strlit("at");
        reveal_strlit("by");
        reveal_strlit("for");
        reveal_strlit("with");
        reveal_strlit("about");
        reveal_strlit("against");
        reveal_strlit("between");
        reveal_strlit("into");
        reveal_strlit("through");
        reveal_strlit("during");
        reveal_strlit("before");
        reveal_strlit("after");
        reveal_strlit("above");
        reveal_strlit("below");
        reveal_strlit("from");
        reveal_strlit("of");
        assert("or"@ != "the"@) by { assert("or"@.len() != "the"@.len()); }
        assert("or"@ != "a"@) by { assert("or"@.len() != "a"@.len()); }
        assert("or"@ != "an"@) by { assert("or"@[0] != "an"@[0]); }
        assert("or"@ != "this"@) by { assert("or"@.len() != "this"@.len()); }
        assert("or"@ != "that"@) by { assert("or"@.len() != "that"@.len()); }
        assert("or"@ != "these"@) by { assert("or"@.len() != "these"@.len()); }
        assert("or"@ != "those"@) by { assert("or"@.len() != "those"@.len()); }
        assert("or"@ != "i"@) by { assert("or"@.len() != "i"@.len()); }
        assert("or"@ != "me"@) by { assert("or"@[0] != "me"@[0]); }
        assert("or"@ != "my"@) by { assert("or"@[0] != "my"@[0]); }
        assert("or"@ != "myself"@) by { assert("or"@.len() != "myself"@.len()); }
        assert("or"@ != "you"@) by { assert("or"@.len() != "you"@.len()); }
        assert("or"@ != "your"@) by { assert("or"@.len() != "your"@.len()); }
        assert("or"@ != "yours"@) by { assert("or"@.len() != "yours"@.len()); }
        assert("or"@ != "yourself"@) by { assert("or"@.len() != "yourself"@.len()); }
        assert("or"@ != "he"@) by { assert("or"@[0] != "he"@[0]); }
        assert("or"@ != "him"@) by { assert("or"@.len() != "him"@.len()); }
        assert("or"@ != "his"@) by { assert("or"@.len() != "his"@.len()); }
        assert("or"@ != "himself"@) by { assert("or"@.len() != "himself"@.len()); }
        assert("or"@ != "she"@) by { assert("or"@.len() != "she"@.len()); }
        assert("or"@ != "her"@) by { assert("or"@.len() != "her"@.len()); }
        assert("or"@ != "hers"@) by { assert("or"@.len() != "hers"@.len()); }
        assert("or"@ != "herself"@) by { assert("or"@.len() != "herself"@.len()); }
        assert("or"@ != "it"@) by { assert("or"@[0] != "it"@[0]); }
        assert("or"@ != "its"@) by { assert("or"@.len() != "its"@.len()); }
        assert("or"@ != "itself"@) by { assert("or"@.len() != "itself"@.len()); }
        assert("or"@ != "we"@) by { assert("or"@[0] != "we"@[0]); }
        assert("or"@ != "us"@) by { assert("or"@[0] != "us"@[0]); }
        assert("or"@ != "our"@) by { assert("or"@.len() != "our"@.len()); }
        assert("or"@ != "ours"@) by { assert("or"@.len() != "ours"@.len()); }
        assert("or"@ != "ourselves"@) by { assert("or"@.len() != "ourselves"@.len()); }
        assert("or"@ != "they"@) by { assert("or"@.len() != "they"@.len()); }
        assert("or"@ != "them"@) by { assert("or"@.len() != "them"@.len()); }
        assert("or"@ != "their"@) by { assert("or"@.len() != "their"@.len()); }
        assert("or"@ != "theirs"@) by { assert("or"@.len() != "theirs"@.len()); }
        assert("or"@ != "themselves"@) by { assert("or"@.len() != "themselves"@.len()); }
        assert("or"@ != "who"@) by { assert("or"@.len() != "who"@.len()); }
        assert("or"@ != "whom"@) by { assert("or"@.len() != "whom"@.len()); }
        assert("or"@ != "whose"@) by { assert("or"@.len() != "whose"@.len()); }
        assert("or"@ != "which"@) by { assert("or"@.len() != "which"@.len()); }
        assert("or"@ != "what"@) by { assert("or"@.len() != "what"@.len()); }
        assert("or"@ != "to"@) by { assert("or"@[0] != "to"@[0]); }
        assert("or"@ != "in"@) by { assert("or"@[0] != "in"@[0]); }
        assert("or"@ != "on"@) by { assert("or"@[1] != "on"@[1]); }
        assert("or"@ != "at"@) by { assert("or"@[0] != "at"@[0]); }
        assert("or"@ != "by"@) by { assert("or"@[0] != "by"@[0]); }
        assert("or"@ != "for"@) by { assert("or"@.len() != "for"@.len()); }
        assert("or"@ != "with"@) by { assert("or"@.len() != "with"@.len()); }
        assert("or"@ != "about"@) by { assert("or"@.len() != "about"@.len()); }
        assert("or"@ != "against"@) by { assert("or"@.len() != "against"@.len()); }
        assert("or"@ != "between"@) by { assert("or"@.len() != "between"@.len()); }
        assert("or"@ != "into"@) by { assert("or"@.len() != "into"@.len()); }
        assert("or"@ != "through"@) by { assert("or"@.len() != "through"@.len()); }
        assert("or"@ != "during"@) by { assert("or"@.len() != "during"@.len()); }
        assert("or"@ != "before"@) by { assert("or"@.len() != "before"@.len()); }
        assert("or"@ != "after"@) by { assert("or"@.len() != "after"@.len()); }
        assert("or"@ != "above"@) by { assert("or"@.len() != "above"@.len()); }
        assert("or"@ != "below"@) by { assert("or"@.len() != "below"@.len()); }
        assert("or"@ != "from"@) by { assert("or"@.len() != "from"@.len()); }
        assert("or"@ != "of"@) by { assert("or"@[1] != "of"@[1]); }
    } else if p == "so"@ {
        reveal_strlit("so");
        reveal_strlit("the");
        reveal_strlit("a");
        reveal_strlit("an");
        reveal_strlit("this");
        reveal_strlit("that");
        reveal_strlit("these");
        reveal_strlit("those");
        reveal_strlit("i");
        reveal_strlit("me");
        reveal_strlit("my");
        reveal_strlit("myself");
        reveal_strlit("you");
        reveal_strlit("your");
        reveal_strlit("yours");
        reveal_strlit("yourself");
        reveal_strlit("he");
        reveal_strlit("him");
        reveal_strlit("his");
        reveal_strlit("himself");
        reveal_strlit("she");
        reveal_strlit("her");
        reveal_strlit("hers");
        reveal_strlit("herself");
        reveal_strlit("it");
        reveal_strlit("its");
        reveal_strlit("itself");
        reveal_strlit("we");
        reveal_strlit("us");
        reveal_strlit("our");
        reveal_strlit("ours");
        reveal_strlit("ourselves");
        reveal_strlit("they");
        reveal_strlit("them");
        reveal_strlit("their");
        reveal_strlit("theirs");
        reveal_strlit("themselves");
        reveal_strlit("who");
        reveal_strlit("whom");
        reveal_strlit("whose");
        reveal_strlit("which");
        reveal_strlit("what");
        reveal_strlit("to");
        reveal_strlit("in");
        reveal_strlit("on");
        reveal_strlit("at");
        reveal_strlit("by");
        reveal_strlit("for");
        reveal_strlit("with");
        reveal_strlit("about");
        reveal_strlit("against");
        reveal_strlit("between");
        reveal_strlit("into");
        reveal_strlit("through");
        reveal_strlit("during");
        reveal_strlit("before");
        reveal_strlit("after");
        reveal_strlit("above");
        reveal_strlit("below");
        reveal_strlit("from");
        reveal_strlit("of");
        assert("so"@ != "the"@) by { assert("so"@.len() != "the"@.len()); }
        assert("so"@ != "a"@) by { assert("so"@.len() != "a"@.len()); }
        assert("so"@ != "an"@) by { assert("so"@[0] != "an"@[0]); }
        assert("so"@ != "this"@) by { assert("so"@.len() != "this"@.len()); }
        assert("so"@ != "that"@) by { assert("so"@.len() != "that"@.len()); }
        assert("so"@ != "these"@) by { assert("so"@.len() != "these"@.len()); }
        assert("so"@ != "those"@) by { assert("so"@.len() != "those"@.len()); }
        assert("so"@ != "i"@) by { assert("so"@.len() != "i"@.len()); }
        assert("so"@ != "me"@) by { assert("so"@[0] != "me"@[0]); }
        assert("so"@ != "my"@) by { assert("so"@[0] != "my"@[0]); }
        assert("so"@ != "myself"@) by { assert("so"@.len() != "myself"@.len()); }
        assert("so"@ != "you"@) by { assert("so"@.len() != "you"@.len()); }
        assert("so"@ != "your"@) by { assert("so"@.len() != "your"@.len()); }
        assert("so"@ != "yours"@) by { assert("so"@.len() != "yours"@.len()); }
        assert("so"@ != "yourself"@) by { assert("so"@.len() != "yourself"@.len()); }
        assert("so"@ != "he"@) by { assert("so"@[0] != "he"@[0]); }
        assert("so"@ != "him"@) by { assert("so"@.len() != "him"@.len()); }
        assert("so"@ != "his"@) by { assert("so"@.len() != "his"@.len()); }
        assert("so"@ != "himself"@) by { assert("so"@.len() != "himself"@.len()); }
        assert("so"@ != "she"@) by { assert("so"@.len() != "she"@.len()); }
        assert("so"@ != "her"@) by { assert("so"@.len() != "her"@.len()); }
        assert("so"@ != "hers"@) by { assert("so"@.len() != "hers"@.len()); }
        assert("so"@ != "herself"@) by { assert("so"@.len() != "herself"@.len()); }
        assert("so"@ != "it"@) by { assert("so"@[0] != "it"@[0]); }
        assert("so"@ != "its"@) by { assert("so"@.len() != "its"@.len()); }
        assert("so"@ != "itself"@) by { assert("so"@.len() != "itself"@.len()); }
        assert("so"@ != "we"@) by { assert("so"@[0] != "we"@[0]); }
        assert("so"@ != "us"@) by { assert("so"@[0] != "us"@[0]); }
        assert("so"@ != "our"@) by { assert("so"@.len() != "our"@.len()); }
        assert("so"@ != "ours"@) by { assert("so"@.len() != "ours"@.len()); }
        assert("so"@ != "ourselves"@) by { assert("so"@.len() != "ourselves"@.len()); }
        assert("so"@ != "they"@) by { assert("so"@.len() != "they"@.len()); }
        assert("so"@ != "them"@) by { assert("so"@.len() != "them"@.len()); }
        assert("so"@ != "their"@) by { assert("so"@.len() != "their"@.len()); }
        assert("so"@ != "theirs"@) by { assert("so"@.len() != "theirs"@.len()); }
        assert("so"@ != "themselves"@) by { assert("so"@.len() != "themselves"@.len()); }
        assert("so"@ != "who"@) by { assert("so"@.len() != "who"@.len()); }
        assert("so"@ != "whom"@) by { assert("so"@.len() != "whom"@.len()); }
        assert("so"@ != "whose"@) by { assert("so"@.len() != "whose"@.len()); }
        assert("so"@ != "which"@) by { assert("so"@.len() != "which"@.len()); }
        assert("so"@ != "what"@) by { assert("so"@.len() != "what"@.len()); }
        assert("so"@ != "to"@) by { assert("so"@[0] != "to"@[0]); }
        assert("so"@ != "in"@) by { assert("so"@[0] != "in"@[0]); }
        assert("so"@ != "on"@) by { assert("so"@[0] != "on"@[0]); }
        assert("so"@ != "at"@) by { assert("so"@[0] != "at"@[0]); }
        assert("so"@ != "by"@) by { assert("so"@[0] != "by"@[0]); }
        assert("so"@ != "for"@) by { assert("so"@.len() != "for"@.len()); }
        assert("so"@ != "with"@) by { assert("so"@.len() != "with"@.len()); }
        assert("so"@ != "about"@) by { assert("so"@.len() != "about"@.len()); }
        assert("so"@ != "against"@) by { assert("so"@.len() != "against"@.len()); }
        assert("so"@ != "between"@) by { assert("so"@.len() != "between"@.len()); }
        assert("so"@ != "into"@) by { assert("so"@.len() != "into"@.len()); }
        assert("so"@ != "through"@) by { assert("so"@.len() != "through"@.len()); }
        assert("so"@ != "during"@) by { assert("so"@.len() != "during"@.len()); }
        assert("so"@ != "before"@) by { assert("so"@.len() != "before"@.len()); }
        assert("so"@ != "after"@) by { assert("so"@.len() != "after"@.len()); }
        assert("so"@ != "above"@) by { assert("so"@.len() != "above"@.len()); }
        assert("so"@ != "below"@) by { assert("so"@.len() != "below"@.len()); }
        assert("so"@ != "from"@) by { assert("so"@.len() != "from"@.len()); }
        assert("so"@ != "of"@) by { assert("so"@[0] != "of"@[0]); }
    } else if p == "nor"@ {
        reveal_strlit("nor");
        reveal_strlit("the");
        reveal_strlit("a");
        reveal_strlit("an");
        reveal_strlit("this");
        reveal_strlit("that");
        reveal_strlit("these");
        reveal_strlit("those");
        reveal_strlit("i");
        reveal_strlit("me");
        reveal_strlit("my");
        reveal_strlit("myself");
        reveal_strlit("you");
        reveal_strlit("your");
        reveal_strlit("yours");
        reveal_strlit("yourself");
        reveal_strlit("he");
        reveal_strlit("him");
        reveal_strlit("his");
        reveal_strlit("himself");
        reveal_strlit("she");
        reveal_strlit("her");
        reveal_strlit("hers");
        reveal_strlit("herself");
        reveal_strlit("it");
        reveal_strlit("its");
        reveal_strlit("itself");
        reveal_strlit("we");
        reveal_strlit("us");
        reveal_strlit("our");
        reveal_strlit("ours");
        reveal_strlit("ourselves");
        reveal_strlit("they");
        reveal_strlit("them");
        reveal_strlit("their");
        reveal_strlit("theirs");
        reveal_strlit("themselves");
        reveal_strlit("who");
        reveal_strlit("whom");
        reveal_strlit("whose");
        reveal_strlit("which");
        reveal_strlit("what");
        reveal_strlit("to");
        reveal_strlit("in");
        reveal_strlit("on");
        reveal_strlit("at");
        reveal_strlit("by");
        reveal_strlit("for");
        reveal_strlit("with");
        reveal_strlit("about");
        reveal_strlit("against");
        reveal_strlit("between");
        reveal_strlit("into");
        reveal_strlit("through");
        reveal_strlit("during");
        reveal_strlit("before");
        reveal_strlit("after");
        reveal_strlit("above");
        reveal_strlit("below");
        reveal_strlit("from");
        reveal_strlit("of");
        assert("nor"@ != "the"@) by { assert("nor"@[0] != "the"@[0]); }
        assert("nor"@ != "a"@) by { assert("nor"@.len() != "a"@.len()); }
        assert("nor"@ != "an"@) by { assert("nor"@.len() != "an"@.len()); }
        assert("nor"@ != "this"@) by { assert("nor"@.len() != "this"@.len()); }
        assert("nor"@ != "that"@) by { assert("nor"@.len() != "that"@.len()); }
        assert("nor"@ != "these"@) by { assert("nor"@.len() != "these"@.len()); }
        assert("nor"@ != "those"@) by { assert("nor"@.len() != "those"@.len()); }
        assert("nor"@ != "i"@) by { assert("nor"@.len() != "i"@.len()); }
        assert("nor"@ != "me"@) by { assert("nor"@.len() != "me"@.len()); }
        assert("nor"@ != "my"@) by { assert("nor"@.len() != "my"@.len()); }
        assert("nor"@ != "myself"@) by { assert("nor"@.len() != "myself"@.len()); }
        assert("nor"@ != "you"@) by { assert("nor"@[0] != "you"@[0]); }
        assert("nor"@ != "your"@) by { assert("nor"@.len() != "your"@.len()); }
        assert("nor"@ != "yours"@) by { assert("nor"@.len() != "yours"@.len()); }
        assert("nor"@ != "yourself"@) by { assert("nor"@.len() != "yourself"@.len()); }
        assert("nor"@ != "he"@) by { assert("nor"@.len() != "he"@.len()); }
        assert("nor"@ != "him"@) by { assert("nor"@[0] != "him"@[0]); }
        assert("nor"@ != "his"@) by { assert("nor"@[0] != "his"@[0]); }
        assert("nor"@ != "himself"@) by { assert("nor"@.len() != "himself"@.len()); }
        assert("nor"@ != "she"@) by { assert("nor"@[0] != "she"@[0]); }
        assert("nor"@ != "her"@) by { assert("nor"@[0] != "her"@[0]); }
        assert("nor"@ != "hers"@) by { assert("nor"@.len() != "hers"@.len()); }
        assert("nor"@ != "herself"@) by { assert("nor"@.len() != "herself"@.len()); }
        assert("nor"@ != "it"@) by { assert("nor"@.len() != "it"@.len()); }
        assert("nor"@ != "its"@) by { assert("nor"@[0] != "its"@[0]); }
        assert("nor"@ != "itself"@) by { assert("nor"@.len() != "itself"@.len()); }
        assert("nor"@ != "we"@) by { assert("nor"@.len() != "we"@.len()); }
        assert("nor"@ != "us"@) by { assert("nor"@.len() != "us"@.len()); }
        assert("nor"@ != "our"@) by { assert("nor"@[0] != "our"@[0]); }
        assert("nor"@ != "ours"@) by { assert("nor"@.len() != "ours"@.len()); }
        assert("nor"@ != "ourselves"@) by { assert("nor"@.len() != "ourselves"@.len()); }
        assert("nor"@ != "they"@) by { assert("nor"@.len() != "they"@.len()); }
        assert("nor"@ != "them"@) by { assert("nor"@.len() != "them"@.len()); }
        assert("nor"@ != "their"@) by { assert("nor"@.len() != "their"@.len()); }
        assert("nor"@ != "theirs"@) by { assert("nor"@.len() != "theirs"@.len()); }
        assert("nor"@ != "themselves"@) by { assert("nor"@.len() != "themselves"@.len()); }
        assert("nor"@ != "who"@) by { assert("nor"@[0] != "who"@[0]); }
        assert("nor"@ != "whom"@) by { assert("nor"@.len() != "whom"@.len()); }
        assert("nor"@ != "whose"@) by { assert("nor"@.len() != "whose"@.len()); }
        assert("nor"@ != "which"@) by { assert("nor"@.len() != "which"@.len()); }
        assert("nor"@ != "what"@) by { assert("nor"@.len() != "what"@.len()); }
        assert("nor"@ != "to"@) by { assert("nor"@.len() != "to"@.len()); }
        assert("nor"@ != "in"@) by { assert("nor"@.len() != "in"@.len()); }
        assert("nor"@ != "on"@) by { assert("nor"@.len() != "on"@.len()); }
        assert("nor"@ != "at"@) by { assert("nor"@.len() != "at"@.len()); }
        assert("nor"@ != "by"@) by { assert("nor"@.len() != "by"@.len()); }
        assert("nor"@ != "for"@) by { assert("nor"@[0] != "for"@[0]); }
        assert("nor"@ != "with"@) by { assert("nor"@.len() != "with"@.len()); }
        assert("nor"@ != "about"@) by { assert("nor"@.len() != "about"@.len()); }
        assert("nor"@ != "against"@) by { assert("nor"@.len() != "against"@.len()); }
        assert("nor"@ != "between"@) by { assert("nor"@.len() != "between"@.len()); }
        assert("nor"@ != "into"@) by { assert("nor"@.len() != "into"@.len()); }
        assert("nor"@ != "through"@) by { assert("nor"@.len() != "through"@.len()); }
        assert("nor"@ != "during"@) by { assert("nor"@.len() != "during"@.len()); }
        assert("nor"@ != "before"@) by { assert("nor"@.len() != "before"@.len()); }
        assert("nor"@ != "after"@) by { assert("nor"@.len() != "after"@.len()); }
        assert("nor"@ != "above"@) by { assert("nor"@.len() != "above"@.len()); }
        assert("nor"@ != "below"@) by { assert("nor"@.len() != "below"@.len()); }
        assert("nor"@ != "from"@) by { assert("nor"@.len() != "from"@.len()); }
        assert("nor"@ != "of"@) by { assert("nor"@.len() != "of"@.len()); }
    } else if p == "yet"@ {
        reveal_strlit("yet");
        reveal_strlit("the");
        reveal_strlit("a");
        reveal_strlit("an");
        reveal_strlit("this");
        reveal_strlit("that");
        reveal_strlit("these");
        reveal_strlit("those");
        reveal_strlit("i");
        reveal_strlit("me");
        reveal_strlit("my");
        reveal_strlit("myself");
        reveal_strlit("you");
        reveal_strlit("your");
        reveal_strlit("yours");
        reveal_strlit("yourself");
        reveal_strlit("he");
        reveal_strlit("him");
        reveal_strlit("his");
        reveal_strlit("himself");
        reveal_strlit("she");
        reveal_strlit("her");
        reveal_strlit("hers");
        reveal_strlit("herself");
        reveal_strlit("it");
        reveal_strlit("its");
        reveal_strlit("itself");
        reveal_strlit("we");
        reveal_strlit("us");
        reveal_strlit("our");
        reveal_strlit("ours");
        reveal_strlit("ourselves");
        reveal_strlit("they");
        reveal_strlit("them");
        reveal_strlit("their");
        reveal_strlit("theirs");
        reveal_strlit("themselves");
        reveal_strlit("who");
        reveal_strlit("whom");
        reveal_strlit("whose");
        reveal_strlit("which");
        reveal_strlit("what");
        reveal_strlit("to");
        reveal_strlit("in");
        reveal_strlit("on");
        reveal_strlit("at");
        reveal_strlit("by");
        reveal_strlit("for");
        reveal_strlit("with");
        reveal_strlit("about");
        reveal_strlit("against");
        reveal_strlit("between");
        reveal_strlit("into");
        reveal_strlit("through");
        reveal_strlit("during");
        reveal_strlit("before");
        reveal_strlit("after");
        reveal_strlit("above");
        reveal_strlit("below");
        reveal_strlit("from");
        reveal_strlit("of");
        assert("yet"@ != "the"@) by { assert("yet"@[0] != "the"@[0]); }
        assert("yet"@ != "a"@) by { assert("yet"@.len() != "a"@.len()); }
        assert("yet"@ != "an"@) by { assert("yet"@.len() != "an"@.len()); }
        assert("yet"@ != "this"@) by { assert("yet"@.len() != "this"@.len()); }
        assert("yet"@ != "that"@) by { assert("yet"@.len() != "that"@.len()); }
        assert("yet"@ != "these"@) by { assert("yet"@.len() != "these"@.len()); }
        assert("yet"@ != "those"@) by { assert("yet"@.len() != "those"@.len()); }
        assert("yet"@ != "i"@) by { assert("yet"@.len() != "i"@.len()); }
        assert("yet"@ != "me"@) by { assert("yet"@.len() != "me"@.len()); }
        assert("yet"@ != "my"@) by { assert("yet"@.len() != "my"@.len()); }
        assert("yet"@ != "myself"@) by { assert("yet"@.len() != "myself"@.len()); }
        assert("yet"@ != "you"@) by { assert("yet"@[1] != "you"@[1]); }
        assert("yet"@ != "your"@) by { assert("yet"@.len() != "your"@.len()); }
        assert("yet"@ != "yours"@) by { assert("yet"@.len() != "yours"@.len()); }
        assert("yet"@ != "yourself"@) by { assert("yet"@.len() != "yourself"@.len()); }
        assert("yet"@ != "he"@) by { assert("yet"@.len() != "he"@.len()); }
        assert("yet"@ != "him"@) by { assert("yet"@[0] != "him"@[0]); }
        assert("yet"@ != "his"@) by { assert("yet"@[0] != "his"@[0]); }
        assert("yet"@ != "himself"@) by { assert("yet"@.len() != "himself"@.len()); }
        assert("yet"@ != "she"@) by { assert("yet"@[0] != "she"@[0]); }
        assert("yet"@ != "her"@) by { assert("yet"@[0] != "her"@[0]); }
        assert("yet"@ != "hers"@) by { assert("yet"@.len() != "hers"@.len()); }
        assert("yet"@ != "herself"@) by { assert("yet"@.len() != "herself"@.len()); }
        assert("yet"@ != "it"@) by { assert("yet"@.len() != "it"@.len()); }
        assert("yet"@ != "its"@) by { assert("yet"@[0] != "its"@[0]); }
        assert("yet"@ != "itself"@) by { assert("yet"@.len() != "itself"@.len()); }
        assert("yet"@ != "we"@) by { assert("yet"@.len() != "we"@.len()); }
        assert("yet"@ != "us"@) by { assert("yet"@.len() != "us"@.len()); }
        assert("yet"@ != "our"@) by { assert("yet"@[0] != "our"@[0]); }
        assert("yet"@ != "ours"@) by { assert("yet"@.len() != "ours"@.len()); }
        assert("yet"@ != "ourselves"@) by { assert("yet"@.len() != "ourselves"@.len()); }
        assert("yet"@ != "they"@) by { assert("yet"@.len() != "they"@.len()); }
        assert("yet"@ != "them"@) by { assert("yet"@.len() != "them"@.len()); }
        assert("yet"@ != "their"@) by { assert("yet"@.len() != "their"@.len()); }
        assert("yet"@ != "theirs"@) by { assert("yet"@.len() != "theirs"@.len()); }
        assert("yet"@ != "themselves"@) by { assert("yet"@.len() != "themselves"@.len()); }
        assert("yet"@ != "who"@) by { assert("yet"@[0] != "who"@[0]); }
        assert("yet"@ != "whom"@) by { assert("yet"@.len() != "whom"@.len()); }
        assert("yet"@ != "whose"@) by { assert("yet"@.len() != "whose"@.len()); }
        assert("yet"@ != "which"@) by { assert("yet"@.len() != "which"@.len()); }
        assert("yet"@ != "what"@) by { assert("yet"@.len() != "what"@.len()); }
        assert("yet"@ != "to"@) by { assert("yet"@.len() != "to"@.len()); }
        assert("yet"@ != "in"@) by { assert("yet"@.len() != "in"@.len()); }
        assert("yet"@ != "on"@) by { assert("yet"@.len() != "on"@.len()); }
        assert("yet"@ != "at"@) by { assert("yet"@.len() != "at"@.len()); }
        assert("yet"@ != "by"@) by { assert("yet"@.len() != "by"@.len()); }
        assert("yet"@ != "for"@) by { assert("yet"@[0] != "for"@[0]); }
        assert("yet"@ != "with"@) by { assert("yet"@.len() != "with"@.len()); }
        assert("yet"@ != "about"@) by { assert("yet"@.len() != "about"@.len()); }
        assert("yet"@ != "against"@) by { assert("yet"@.len() != "against"@.len()); }
        assert("yet"@ != "between"@) by { assert("yet"@.len() != "between"@.len()); }
        assert("yet"@ != "into"@) by { assert("yet"@.len() != "into"@.len()); }
        assert("yet"@ != "through"@) by { assert("yet"@.len() != "through"@.len()); }
        assert("yet"@ != "during"@) by { assert("yet"@.len() != "during"@.len()); }
        assert("yet"@ != "before"@) by { assert("yet"@.len() != "before"@.len()); }
        assert("yet"@ != "after"@) by { assert("yet"@.len() != "after"@.len()); }
        assert("yet"@ != "above"@) by { assert("yet"@.len() != "above"@.len()); }
        assert("yet"@ != "below"@) by { assert("yet"@.len() != "below"@.len()); }
        assert("yet"@ != "from"@) by { assert("yet"@.len() != "from"@.len()); }
        assert("yet"@ != "of"@) by { assert("yet"@.len() != "of"@.len()); }
    }
}

/// Each closed-class word gets its fixed tag, in any case: for a word of letters
/// without digits whose lowercase form is a determiner it is `DT`, a pronoun `PRP`,
/// "to" `TO`, a preposition `IN`, a conjunction `CC`.
pub proof fn law_closed_class_words_are_tagged(w: Seq<char>)
    requires
        letter_word(w),
        !has_numeric(w),
    ensures
        listed_determiner(lowercase_str(w)) ==> tag_of(w) == "DT"@,
        listed_pronoun(lowercase_str(w)) ==> tag_of(w) == "PRP"@,
        lowercase_str(w) == "to"@ ==> tag_of(w) == "TO"@,
        listed_preposition(lowercase_str(w)) ==> tag_of(w) == "IN"@,
        listed_conjunction(lowercase_str(w)) ==> tag_of(w) == "CC"@,
{
    let l = lowercase_str(w);
    lemma_letter_word_is_no_mark(w);
    if listed_pronoun(l) {
        lemma_pronoun_is_no_earlier_class(l);
    }
    if l == "to"@ {
        lemma_to_is_no_earlier_class();
    }
    if listed_preposition(l) {
        lemma_preposition_is_no_earlier_class(l);
    }
    if listed_conjunction(l) {
        lemma_conjunction_is_no_earlier_class(l);
    }
}

} // verus!
