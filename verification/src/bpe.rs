//! Byte-pair-encoding tokenizer over a `.pvocab` vocabulary.
//!
//! A `.pvocab` file is `PVOC`, a `u16` version (1), the vocabulary and merge
//! counts (`u32` each), then the vocabulary records (`i32` id, `u16` length, UTF-8
//! token) and the merge records (`u32` rank, then two length-prefixed UTF-8
//! parts). All integers are little-endian.

use vstd::prelude::*;
use vstd::hash_map::StringHashMap;
use vstd::string::StringSliceAdditionalSpecFns;
use vstd::utf8::{decode_utf8, encode_utf8, valid_utf8};
use std::collections::HashMap;
use crate::text::{
    chars_of, decimal_digits, decimal_text, extend_chars, from_utf8, joined, push_char, starts_with,
    string_from_chars,
};
use crate::zip_reader::{le16, le32, read_u16, read_u32};
use crate::pattern::{compile_regex, find_all, regex_compiles, regex_matches, regex_pattern};

verus! {

// ---------------------------------------------------------------------------
// Outside types and errors
// ---------------------------------------------------------------------------

/// Why a vocabulary could not be loaded.
#[derive(Debug)]
pub enum BpeError {
    InvalidSize,
    InvalidMagic(Vec<u8>),
    UnsupportedVersion(u16),
    MalformedVocab,
    MalformedToken,
    InvalidUtf8Vocab(std::str::Utf8Error),
    MalformedMerges,
    MalformedMergePart1,
    MalformedMergePart2Length,
    MalformedMergePart2,
    InvalidRegex(regex::Error),
}

/// What is wrong with a `.pvocab` file, as plain values.
pub enum PvocabFault {
    InvalidSize,
    InvalidMagic(Seq<u8>),
    UnsupportedVersion(u16),
    MalformedVocab,
    MalformedToken,
    InvalidUtf8,
    MalformedMerges,
    MalformedMergePart1,
    MalformedMergePart2Length,
    MalformedMergePart2,
}

/// The error `e` reports the fault `f`.
pub open spec fn reports(e: BpeError, f: PvocabFault) -> bool {
    match f {
        PvocabFault::InvalidSize => e is InvalidSize,
        PvocabFault::InvalidMagic(m) => e matches BpeError::InvalidMagic(v) && v@ == m,
        PvocabFault::UnsupportedVersion(v) => e matches BpeError::UnsupportedVersion(w) && w == v,
        PvocabFault::MalformedVocab => e is MalformedVocab,
        PvocabFault::MalformedToken => e is MalformedToken,
        PvocabFault::InvalidUtf8 => e is InvalidUtf8Vocab,
        PvocabFault::MalformedMerges => e is MalformedMerges,
        PvocabFault::MalformedMergePart1 => e is MalformedMergePart1,
        PvocabFault::MalformedMergePart2Length => e is MalformedMergePart2Length,
        PvocabFault::MalformedMergePart2 => e is MalformedMergePart2,
    }
}

// ---------------------------------------------------------------------------
// The file format
// ---------------------------------------------------------------------------

/// The little-endian `i32` at `o`.
pub open spec fn le_i32(d: Seq<u8>, o: int) -> i32 {
    (le32(d, o) as u32) as i32
}

/// The UTF-8 text of `d[o..o + n]`, or the fault when it is not UTF-8.
pub open spec fn text_at(d: Seq<u8>, o: int, n: int) -> Result<Seq<char>, PvocabFault> {
    if valid_utf8(d.subrange(o, o + n)) {
        Ok(decode_utf8(d.subrange(o, o + n)))
    } else {
        Err(PvocabFault::InvalidUtf8)
    }
}

/// `count` vocabulary records from offset `o`, and the offset after them.
pub open spec fn vocab_section(d: Seq<u8>, o: int, count: nat) -> Result<
    (Seq<(Seq<char>, i32)>, int),
    PvocabFault,
>
    decreases count,
{
    if count == 0 {
        Ok((Seq::empty(), o))
    } else if o + 6 > d.len() {
        Err(PvocabFault::MalformedVocab)
    } else {
        let n = le16(d, o + 4);
        if o + 6 + n > d.len() {
            Err(PvocabFault::MalformedToken)
        } else {
            match text_at(d, o + 6, n) {
                Err(f) => Err(f),
                Ok(t) => match vocab_section(d, o + 6 + n, (count - 1) as nat) {
                    Err(f) => Err(f),
                    Ok((rest, end)) => Ok((seq![(t, le_i32(d, o))] + rest, end)),
                },
            }
        }
    }
}

/// `count` merge records from offset `o`: rank and the two parts.
pub open spec fn merges_section(d: Seq<u8>, o: int, count: nat) -> Result<
    Seq<(usize, Seq<char>, Seq<char>)>,
    PvocabFault,
>
    decreases count,
{
    if count == 0 {
        Ok(Seq::empty())
    } else if o + 8 > d.len() {
        Err(PvocabFault::MalformedMerges)
    } else {
        let n1 = le16(d, o + 4);
        if o + 6 + n1 > d.len() {
            Err(PvocabFault::MalformedMergePart1)
        } else {
            match text_at(d, o + 6, n1) {
                Err(f) => Err(f),
                Ok(a) => {
                    let o2 = o + 6 + n1;
                    if o2 + 2 > d.len() {
                        Err(PvocabFault::MalformedMergePart2Length)
                    } else {
                        let n2 = le16(d, o2);
                        if o2 + 2 + n2 > d.len() {
                            Err(PvocabFault::MalformedMergePart2)
                        } else {
                            match text_at(d, o2 + 2, n2) {
                                Err(f) => Err(f),
                                Ok(b) => match merges_section(d, o2 + 2 + n2, (count - 1) as nat) {
                                    Err(f) => Err(f),
                                    Ok(rest) => Ok(seq![(le32(d, o) as usize, a, b)] + rest),
                                },
                            }
                        }
                    }
                },
            }
        }
    }
}

/// The vocabulary and merge records of a `.pvocab` file, or its first fault.
pub open spec fn pvocab(d: Seq<u8>) -> Result<
    (Seq<(Seq<char>, i32)>, Seq<(usize, Seq<char>, Seq<char>)>),
    PvocabFault,
> {
    if d.len() < 14 {
        Err(PvocabFault::InvalidSize)
    } else if d.subrange(0, 4) != seq![0x50u8, 0x56u8, 0x4fu8, 0x43u8] {
        Err(PvocabFault::InvalidMagic(d.subrange(0, 4)))
    } else if le16(d, 4) != 1 {
        Err(PvocabFault::UnsupportedVersion(le16(d, 4) as u16))
    } else {
        match vocab_section(d, 14, le32(d, 6) as nat) {
            Err(f) => Err(f),
            Ok((vocab, end)) => match merges_section(d, end, le32(d, 10) as nat) {
                Err(f) => Err(f),
                Ok(merges) => Ok((vocab, merges)),
            },
        }
    }
}

/// The vocabulary of `records`: token to id, a later record of a token winning.
pub open spec fn vocab_map(records: Seq<(Seq<char>, i32)>) -> Map<Seq<char>, i32>
    decreases records.len(),
{
    if records.len() == 0 {
        Map::empty()
    } else {
        vocab_map(records.drop_last()).insert(records.last().0, records.last().1)
    }
}

/// The inverse vocabulary of `records`: id to token, a later record of an id winning.
pub open spec fn inverse_map(records: Seq<(Seq<char>, i32)>) -> Map<i32, Seq<char>>
    decreases records.len(),
{
    if records.len() == 0 {
        Map::empty()
    } else {
        inverse_map(records.drop_last()).insert(records.last().1, records.last().0)
    }
}

/// The rank of the merge of `a` with `b`: that of the last merge record for them.
pub open spec fn rank_of(merges: Seq<(usize, Seq<char>, Seq<char>)>, a: Seq<char>, b: Seq<char>) -> Option<
    usize,
>
    decreases merges.len(),
{
    if merges.len() == 0 {
        None
    } else if merges.last().1 == a && merges.last().2 == b {
        Some(merges.last().0)
    } else {
        rank_of(merges.drop_last(), a, b)
    }
}

/// The longest first part a merge key can hold.
pub open spec fn key_limit() -> int {
    0xF_FFFF
}

/// The key under which the pair `(a, b)` is stored: a char that holds the length of
/// `a`, then `a`, then `b`. Pairs whose first part is at most `key_limit()` chars
/// long get distinct keys.
pub open spec fn pair_key(a: Seq<char>, b: Seq<char>) -> Seq<char> {
    seq![((0x1_0000 + a.len()) as u32) as char] + a + b
}

/// The merge map of `merges`: pair key to rank, a later record winning.
pub open spec fn merge_map(merges: Seq<(usize, Seq<char>, Seq<char>)>) -> Map<Seq<char>, usize>
    decreases merges.len(),
{
    if merges.len() == 0 {
        Map::empty()
    } else {
        merge_map(merges.drop_last()).insert(
            pair_key(merges.last().1, merges.last().2),
            merges.last().0,
        )
    }
}

proof fn lemma_pair_key_injective(a: Seq<char>, b: Seq<char>, c: Seq<char>, d: Seq<char>)
    requires
        a.len() <= key_limit(),
        c.len() <= key_limit(),
        pair_key(a, b) == pair_key(c, d),
    ensures
        a == c,
        b == d,
{
    let k1 = pair_key(a, b);
    let k2 = pair_key(c, d);
    assert(k1[0] == k2[0]);
    assert(((0x1_0000 + a.len()) as u32) as char == ((0x1_0000 + c.len()) as u32) as char);
    assert((((0x1_0000 + a.len()) as u32) as char) as u32 == (0x1_0000 + a.len()) as u32);
    assert((((0x1_0000 + c.len()) as u32) as char) as u32 == (0x1_0000 + c.len()) as u32);
    assert(a.len() == c.len());
    assert(a =~= k1.subrange(1, 1 + a.len() as int));
    assert(c =~= k2.subrange(1, 1 + c.len() as int));
    assert(b =~= k1.subrange(1 + a.len() as int, k1.len() as int));
    assert(d =~= k2.subrange(1 + c.len() as int, k2.len() as int));
}

/// All first parts of `merges` fit a pair key.
pub open spec fn keys_fit(merges: Seq<(usize, Seq<char>, Seq<char>)>) -> bool {
    forall|i: int| 0 <= i < merges.len() ==> (#[trigger] merges[i]).1.len() <= key_limit()
}

proof fn lemma_merge_map_rank(merges: Seq<(usize, Seq<char>, Seq<char>)>, a: Seq<char>, b: Seq<char>)
    requires
        keys_fit(merges),
        a.len() <= key_limit(),
    ensures
        merge_map(merges).contains_key(pair_key(a, b)) <==> rank_of(merges, a, b) is Some,
        rank_of(merges, a, b) matches Some(r) ==> merge_map(merges)[pair_key(a, b)] == r,
    decreases merges.len(),
{
    if merges.len() > 0 {
        let l = merges.last();
        assert(merges[merges.len() - 1] == l);
        assert(keys_fit(merges.drop_last())) by {
            assert forall|i: int| 0 <= i < merges.drop_last().len() implies (
            #[trigger] merges.drop_last()[i]).1.len() <= key_limit() by {
                assert(merges.drop_last()[i] == merges[i]);
            }
        }
        lemma_merge_map_rank(merges.drop_last(), a, b);
        if pair_key(l.1, l.2) == pair_key(a, b) {
            lemma_pair_key_injective(l.1, l.2, a, b);
        }
    }
}

proof fn lemma_decode_len(bytes: Seq<u8>)
    requires
        valid_utf8(bytes),
    ensures
        decode_utf8(bytes).len() <= bytes.len(),
    decreases bytes.len(),
{
    if bytes.len() > 0 {
        assert(vstd::utf8::length_of_first_scalar(bytes) <= bytes.len() as int);
        assert(vstd::utf8::length_of_first_scalar(bytes) >= 1);
        lemma_decode_len(vstd::utf8::pop_first_scalar(bytes));
    }
}

// ---------------------------------------------------------------------------
// The tokenizer
// ---------------------------------------------------------------------------

/// The GPT-2 / Qwen pre-tokenization pattern: contractions, runs of letters, of
/// digits or of other symbols (each with an optional leading space), and whitespace.
pub const PRE_TOKENIZER_PATTERN: &'static str = r"'s|'t|'re|'ve|'m|'ll|'d| ?\p{L}+| ?\p{N}+| ?[^\s\p{L}\p{N}]+|\s+$|\s+";

/// A byte-pair-encoding tokenizer.
pub struct BpeTokenizer {
    pub vocab: StringHashMap<i32>,
    pub inverse_vocab: HashMap<i32, String>,
    merges: StringHashMap<usize>,
    pub byte_level: bool,
    pub unknown_token_id: Option<i32>,
    regex: regex::Regex,
}

/// The plain values of an id-to-token map.
pub open spec fn inverse_view_of(m: Map<i32, String>) -> Map<i32, Seq<char>> {
    Map::new(|k: i32| m.contains_key(k), |k: i32| m[k]@)
}

impl BpeTokenizer {
    /// The rank of the merge of `a` with `b`, if they merge.
    pub closed spec fn rank(&self, a: Seq<char>, b: Seq<char>) -> Option<usize> {
        if a.len() <= key_limit() && self.merges@.contains_key(pair_key(a, b)) {
            Some(self.merges@[pair_key(a, b)])
        } else {
            None
        }
    }

    /// The pre-tokenization pattern in use.
    pub closed spec fn pattern(&self) -> Seq<char> {
        regex_pattern(self.regex)
    }

    /// Token to id.
    pub closed spec fn token_ids(&self) -> Map<Seq<char>, i32> {
        self.vocab@
    }

    /// Id to token.
    pub closed spec fn id_tokens(&self) -> Map<i32, Seq<char>> {
        inverse_view_of(self.inverse_vocab@)
    }

    /// Whether byte-level mapping is used.
    pub closed spec fn is_byte_level(&self) -> bool {
        self.byte_level
    }

    /// The id given to pieces outside the vocabulary, if any.
    pub closed spec fn unknown_id(&self) -> Option<i32> {
        self.unknown_token_id
    }

    /// The tokenizer is what the `.pvocab` records `v` and `m` describe.
    pub open spec fn describes(&self, v: Seq<(Seq<char>, i32)>, m: Seq<(usize, Seq<char>, Seq<char>)>) -> bool {
        &&& self.token_ids() == vocab_map(v)
        &&& self.id_tokens() == inverse_map(v)
        &&& forall|a: Seq<char>, b: Seq<char>| #[trigger] self.rank(a, b) == rank_of(m, a, b)
        &&& self.pattern() == PRE_TOKENIZER_PATTERN@
    }

    /// Load a tokenizer from a `.pvocab` file. Every fault of the file is reported as
    /// its error; a file without fault gives the tokenizer it describes.
    pub fn new(data: &[u8], byte_level: bool, unknown_token_id: Option<i32>) -> (r: Result<Self, BpeError>)
        ensures
            pvocab(data@) matches Err(f) ==> r matches Err(e) && reports(e, f),
            pvocab(data@) matches Ok((v, m)) ==> match r {
                Ok(t) => t.describes(v, m) && t.is_byte_level() == byte_level && t.unknown_id()
                    == unknown_token_id && regex_compiles(PRE_TOKENIZER_PATTERN@),
                Err(e) => e is InvalidRegex && !regex_compiles(PRE_TOKENIZER_PATTERN@),
            },
    {
        broadcast use vstd::std_specs::hash::group_hash_axioms;
        let n = data.len();
        if n < 14 {
            return Err(BpeError::InvalidSize);
        }
        let magic = vstd::slice::slice_to_vec(vstd::slice::slice_subrange(data, 0, 4));
        if !(magic[0] == 0x50u8 && magic[1] == 0x56u8 && magic[2] == 0x4fu8 && magic[3] == 0x43u8) {
            assert(magic@ != seq![0x50u8, 0x56u8, 0x4fu8, 0x43u8]);
            return Err(BpeError::InvalidMagic(magic));
        }
        assert(data@.subrange(0, 4) =~= seq![0x50u8, 0x56u8, 0x4fu8, 0x43u8]);
        let version = read_u16(data, 4);
        if version != 1 {
            return Err(BpeError::UnsupportedVersion(version));
        }
        let vocab_count = read_u32(data, 6) as usize;
        let merges_count = read_u32(data, 10) as usize;
        let mut offset: usize = 14;
        let mut vocab: StringHashMap<i32> = StringHashMap::new();
        let mut inverse_vocab: HashMap<i32, String> = HashMap::new();
        let ghost mut recs: Seq<(Seq<char>, i32)> = Seq::empty();
        let ghost whole = vocab_section(data@, 14, vocab_count as nat);
        assert(inverse_view_of(inverse_vocab@) =~= Map::<i32, Seq<char>>::empty());
        assert(recs + Seq::<(Seq<char>, i32)>::empty() =~= recs);
        let mut i: usize = 0;
        while i < vocab_count
            invariant
                n == data@.len(),
                n >= 14,
                data@.subrange(0, 4) == seq![0x50u8, 0x56u8, 0x4fu8, 0x43u8],
                le16(data@, 4) == 1,
                vocab_count == le32(data@, 6),
                merges_count == le32(data@, 10),
                14 <= offset <= n,
                i <= vocab_count,
                whole == vocab_section(data@, 14, vocab_count as nat),
                vocab@ == vocab_map(recs),
                inverse_view_of(inverse_vocab@) == inverse_map(recs),
                whole == match vocab_section(data@, offset as int, (vocab_count - i) as nat) {
                    Err(f) => Err(f),
                    Ok((rest, end)) => Ok((recs + rest, end)),
                },
            decreases vocab_count - i,
        {
            if n - offset < 6 {
                return Err(BpeError::MalformedVocab);
            }
            let raw_id = read_u32(data, offset);
            let token_id = raw_id as i32;
            assert(token_id == le_i32(data@, offset as int));
            let len = read_u16(data, offset + 4) as usize;
            if n - offset - 6 < len {
                return Err(BpeError::MalformedToken);
            }
            let start = offset + 6;
            let token_bytes = vstd::slice::slice_subrange(data, start, start + len);
            let token_str = match from_utf8(token_bytes) {
                Ok(s) => s,
                Err(e) => {
                    return Err(BpeError::InvalidUtf8Vocab(e));
                },
            };
            proof {
                vstd::utf8::encode_utf8_decode_utf8(token_str@);
            }
            let token = String::from_str(token_str);
            let ghost rec = (token@, token_id);
            let ghost prev_inv = inverse_vocab@;
            vocab.insert(token.clone(), token_id);
            inverse_vocab.insert(token_id, token);
            proof {
                assert(inverse_view_of(inverse_vocab@) =~= inverse_view_of(prev_inv).insert(
                    token_id,
                    rec.0,
                ));
                let nr = recs.push(rec);
                assert(nr.drop_last() =~= recs);
                match vocab_section(data@, (start + len) as int, (vocab_count - i - 1) as nat) {
                    Err(f) => {},
                    Ok((rest, end)) => {
                        assert(recs + (seq![rec] + rest) =~= nr + rest);
                    },
                }
                recs = nr;
            }
            offset = start + len;
            i += 1;
        }
        let ghost v = recs;
        assert(whole == Ok::<(Seq<(Seq<char>, i32)>, int), PvocabFault>((v, offset as int))) by {
            assert(recs + Seq::<(Seq<char>, i32)>::empty() =~= recs);
        }
        let mut merges: StringHashMap<usize> = StringHashMap::new();
        let ghost moff = offset as int;
        let ghost mut mrecs: Seq<(usize, Seq<char>, Seq<char>)> = Seq::empty();
        let ghost mwhole = merges_section(data@, offset as int, merges_count as nat);
        assert(mrecs + Seq::<(usize, Seq<char>, Seq<char>)>::empty() =~= mrecs);
        let mut j: usize = 0;
        while j < merges_count
            invariant
                n == data@.len(),
                n >= 14,
                data@.subrange(0, 4) == seq![0x50u8, 0x56u8, 0x4fu8, 0x43u8],
                le16(data@, 4) == 1,
                vocab_count == le32(data@, 6),
                merges_count == le32(data@, 10),
                vocab_section(data@, 14, vocab_count as nat) == Ok::<
                    (Seq<(Seq<char>, i32)>, int),
                    PvocabFault,
                >((v, moff)),
                mwhole == merges_section(data@, moff, merges_count as nat),
                offset <= n,
                j <= merges_count,
                merges@ == merge_map(mrecs),
                keys_fit(mrecs),
                mwhole == match merges_section(data@, offset as int, (merges_count - j) as nat) {
                    Err(f) => Err(f),
                    Ok(rest) => Ok(mrecs + rest),
                },
            decreases merges_count - j,
        {
            if n - offset < 8 {
                return Err(BpeError::MalformedMerges);
            }
            let rank = read_u32(data, offset) as usize;
            let len1 = read_u16(data, offset + 4) as usize;
            if n - offset - 6 < len1 {
                return Err(BpeError::MalformedMergePart1);
            }
            let s1 = offset + 6;
            let first_str = match from_utf8(vstd::slice::slice_subrange(data, s1, s1 + len1)) {
                Ok(s) => s,
                Err(e) => {
                    return Err(BpeError::InvalidUtf8Vocab(e));
                },
            };
            proof {
                vstd::utf8::encode_utf8_decode_utf8(first_str@);
                lemma_decode_len(data@.subrange(s1 as int, s1 + len1));
            }
            let o2 = s1 + len1;
            if n - o2 < 2 {
                return Err(BpeError::MalformedMergePart2Length);
            }
            let len2 = read_u16(data, o2) as usize;
            if n - o2 - 2 < len2 {
                return Err(BpeError::MalformedMergePart2);
            }
            let s2 = o2 + 2;
            let second_str = match from_utf8(vstd::slice::slice_subrange(data, s2, s2 + len2)) {
                Ok(s) => s,
                Err(e) => {
                    return Err(BpeError::InvalidUtf8Vocab(e));
                },
            };
            proof {
                vstd::utf8::encode_utf8_decode_utf8(second_str@);
            }
            let key = merge_key(first_str, second_str);
            let ghost rec = (rank, first_str@, second_str@);
            merges.insert(key, rank);
            proof {
                let nr = mrecs.push(rec);
                assert(nr.drop_last() =~= mrecs);
                assert(nr.last() == rec);
                assert(keys_fit(nr)) by {
                    assert forall|k: int| 0 <= k < nr.len() implies (#[trigger] nr[k]).1.len()
                        <= key_limit() by {
                        if k < mrecs.len() {
                            assert(nr[k] == mrecs[k]);
                        }
                    }
                }
                match merges_section(data@, (s2 + len2) as int, (merges_count - j - 1) as nat) {
                    Err(f) => {},
                    Ok(rest) => {
                        assert(mrecs + (seq![rec] + rest) =~= nr + rest);
                    },
                }
                mrecs = nr;
            }
            offset = s2 + len2;
            j += 1;
        }
        let ghost m = mrecs;
        assert(mwhole == Ok::<Seq<(usize, Seq<char>, Seq<char>)>, PvocabFault>(m)) by {
            assert(mrecs + Seq::<(usize, Seq<char>, Seq<char>)>::empty() =~= mrecs);
        }
        let regex = match compile_regex(PRE_TOKENIZER_PATTERN) {
            Ok(re) => re,
            Err(e) => {
                return Err(BpeError::InvalidRegex(e));
            },
        };
        let t = BpeTokenizer { vocab, inverse_vocab, merges, byte_level, unknown_token_id, regex };
        assert forall|a: Seq<char>, b: Seq<char>| #[trigger] t.rank(a, b) == rank_of(m, a, b) by {
            if a.len() <= key_limit() {
                lemma_merge_map_rank(m, a, b);
            } else {
                lemma_rank_of_fits(m, a, b);
            }
        }
        Ok(t)
    }

    /// The rank of the merge of `a` with `b`, if they merge.
    pub fn merge_rank(&self, a: &str, b: &str) -> (r: Option<usize>)
        ensures
            r == self.rank(a@, b@),
    {
        let ac = chars_of(a);
        if ac.len() > 0xF_FFFF {
            return None;
        }
        let key = merge_key(a, b);
        match self.merges.get(key.as_str()) {
            Some(r) => Some(*r),
            None => None,
        }
    }
}

/// The pair key of `a` and `b`, for a first part of at most `key_limit()` chars.
fn merge_key(a: &str, b: &str) -> (k: String)
    requires
        a@.len() <= key_limit(),
    ensures
        k@ == pair_key(a@, b@),
{
    let ac = chars_of(a);
    let code = 0x1_0000u32 + ac.len() as u32;
    let lead = match crate::epub_text::char_from_u32(code) {
        Some(c) => c,
        None => {
            assert(false);
            'a'
        },
    };
    let mut k = String::new();
    push_char(&mut k, lead);
    let k2 = joined(k.as_str(), a);
    let k3 = joined(k2.as_str(), b);
    assert(k3@ =~= pair_key(a@, b@));
    k3
}

proof fn lemma_rank_of_fits(merges: Seq<(usize, Seq<char>, Seq<char>)>, a: Seq<char>, b: Seq<char>)
    requires
        keys_fit(merges),
        a.len() > key_limit(),
    ensures
        rank_of(merges, a, b) is None,
    decreases merges.len(),
{
    if merges.len() > 0 {
        assert(merges[merges.len() - 1] == merges.last());
        assert(keys_fit(merges.drop_last())) by {
            assert forall|i: int| 0 <= i < merges.drop_last().len() implies (
            #[trigger] merges.drop_last()[i]).1.len() <= key_limit() by {
                assert(merges.drop_last()[i] == merges[i]);
            }
        }
        lemma_rank_of_fits(merges.drop_last(), a, b);
    }
}

// ---------------------------------------------------------------------------
// The byte-level alphabet
// ---------------------------------------------------------------------------

/// Bytes that stand for themselves in the byte-level alphabet.
pub open spec fn printable_byte(b: u8) -> bool {
    (33 <= b && b <= 126) || (161 <= b && b <= 172) || 174 <= b
}

/// The char that stands for the byte `b`: a printable byte stands for itself, the
/// others for `U+0100` onwards in byte order.
pub open spec fn byte_char(b: u8) -> char {
    if printable_byte(b) {
        (b as u32) as char
    } else if b <= 32 {
        ((b as u32) + 256) as char
    } else if b <= 160 {
        ((b as u32) + 162) as char
    } else {
        323u32 as char
    }
}

/// The byte that the char `c` stands for, if any.
pub open spec fn char_byte(c: char) -> Option<u8> {
    let v = c as u32;
    if (33 <= v && v <= 126) || (161 <= v && v <= 172) || (174 <= v && v <= 255) {
        Some(v as u8)
    } else if 256 <= v && v <= 288 {
        Some((v - 256) as u8)
    } else if 289 <= v && v <= 322 {
        Some((v - 162) as u8)
    } else if v == 323 {
        Some(173u8)
    } else {
        None
    }
}

/// The byte-level alphabet is a bijection between bytes and the chars it uses: every
/// byte maps to a char that maps back to it, and a char that maps to a byte is that
/// byte's char.
pub proof fn law_byte_alphabet_round_trip(b: u8, c: char)
    ensures
        char_byte(byte_char(b)) == Some(b),
        char_byte(c) == Some(b) ==> byte_char(b) == c,
{
}

/// The char that stands for `b` in the byte-level alphabet.
pub fn byte_to_unicode(b: u8) -> (c: char)
    ensures
        c == byte_char(b),
{
    if (33 <= b && b <= 126) || (161 <= b && b <= 172) || 174 <= b {
        b as char
    } else {
        let code: u32 = if b <= 32 {
            (b as u32) + 256
        } else if b <= 160 {
            (b as u32) + 162
        } else {
            323
        };
        match crate::epub_text::char_from_u32(code) {
            Some(c) => c,
            None => {
                assert(false);
                ' '
            },
        }
    }
}

/// The byte that `c` stands for in the byte-level alphabet, if any.
pub fn unicode_to_byte(c: char) -> (b: Option<u8>)
    ensures
        b == char_byte(c),
{
    let v = c as u32;
    if (33 <= v && v <= 126) || (161 <= v && v <= 172) || (174 <= v && v <= 255) {
        Some(v as u8)
    } else if 256 <= v && v <= 288 {
        Some((v - 256) as u8)
    } else if 289 <= v && v <= 322 {
        Some((v - 162) as u8)
    } else if v == 323 {
        Some(173u8)
    } else {
        None
    }
}

// ---------------------------------------------------------------------------
// Merging
// ---------------------------------------------------------------------------

/// Each char of `w` as a piece of its own.
pub open spec fn single_chars(w: Seq<char>) -> Seq<Seq<char>> {
    Seq::new(w.len(), |i: int| seq![w[i]])
}

/// `parts` from `i` on with every non-overlapping occurrence of `a` followed by `b`,
/// from the left, joined into one piece.
pub open spec fn merge_pass(parts: Seq<Seq<char>>, a: Seq<char>, b: Seq<char>, i: int) -> Seq<Seq<char>>
    decreases parts.len() - i,
{
    if i < 0 || i >= parts.len() {
        Seq::empty()
    } else if i + 1 < parts.len() && parts[i] == a && parts[i + 1] == b {
        seq![a + b] + merge_pass(parts, a, b, i + 2)
    } else {
        seq![parts[i]] + merge_pass(parts, a, b, i + 1)
    }
}

proof fn lemma_merge_pass_len(parts: Seq<Seq<char>>, a: Seq<char>, b: Seq<char>, i: int, j: int)
    requires
        0 <= i <= parts.len(),
    ensures
        merge_pass(parts, a, b, i).len() <= parts.len() - i,
        i <= j && j + 1 < parts.len() && parts[j] == a && parts[j + 1] == b ==> merge_pass(
            parts,
            a,
            b,
            i,
        ).len() < parts.len() - i,
    decreases parts.len() - i,
{
    if i < parts.len() {
        if i + 1 < parts.len() && parts[i] == a && parts[i + 1] == b {
            lemma_merge_pass_len(parts, a, b, i + 2, j);
        } else {
            lemma_merge_pass_len(parts, a, b, i + 1, j);
        }
    }
}

impl BpeTokenizer {
    /// The adjacent pair of `parts` with the lowest rank below `min`, the first of
    /// equals, scanning from `i` with the best so far `best`.
    pub open spec fn best_pair(
        &self,
        parts: Seq<Seq<char>>,
        i: int,
        best: Option<(Seq<char>, Seq<char>)>,
        min: int,
    ) -> Option<(Seq<char>, Seq<char>)>
        decreases parts.len() - i,
    {
        if i < 0 || i + 1 >= parts.len() {
            best
        } else {
            match self.rank(parts[i], parts[i + 1]) {
                Some(r) => if (r as int) < min {
                    self.best_pair(parts, i + 1, Some((parts[i], parts[i + 1])), r as int)
                } else {
                    self.best_pair(parts, i + 1, best, min)
                },
                None => self.best_pair(parts, i + 1, best, min),
            }
        }
    }

    /// Merge the best-ranked adjacent pair of `parts` everywhere, again and again,
    /// until no adjacent pair merges.
    pub open spec fn merged(&self, parts: Seq<Seq<char>>) -> Seq<Seq<char>>
        decreases parts.len(),
    {
        match self.best_pair(parts, 0, None, usize::MAX as int) {
            None => parts,
            Some((a, b)) => {
                let next = merge_pass(parts, a, b, 0);
                if next.len() < parts.len() {
                    self.merged(next)
                } else {
                    parts
                }
            },
        }
    }

    /// The subwords of `w`: its chars, merged.
    pub open spec fn subwords(&self, w: Seq<char>) -> Seq<Seq<char>> {
        if w.len() == 0 {
            Seq::empty()
        } else {
            self.merged(single_chars(w))
        }
    }

    proof fn lemma_best_pair_found(
        &self,
        parts: Seq<Seq<char>>,
        i: int,
        best: Option<(Seq<char>, Seq<char>)>,
        min: int,
    )
        requires
            0 <= i,
            best is Some ==> exists|j: int|
                #[trigger] adjacent_at(parts, j, best->Some_0.0, best->Some_0.1),
        ensures
            self.best_pair(parts, i, best, min) is Some ==> exists|j: int|
                #[trigger] adjacent_at(
                    parts,
                    j,
                    self.best_pair(parts, i, best, min)->Some_0.0,
                    self.best_pair(parts, i, best, min)->Some_0.1,
                ),
        decreases parts.len() - i,
    {
        if i + 1 < parts.len() {
            match self.rank(parts[i], parts[i + 1]) {
                Some(r) => if (r as int) < min {
                    let nb: Option<(Seq<char>, Seq<char>)> = Some((parts[i], parts[i + 1]));
                    assert(adjacent_at(parts, i, nb->Some_0.0, nb->Some_0.1));
                    self.lemma_best_pair_found(parts, i + 1, nb, r as int);
                } else {
                    self.lemma_best_pair_found(parts, i + 1, best, min);
                },
                None => {
                    self.lemma_best_pair_found(parts, i + 1, best, min);
                },
            }
        }
    }

    /// The ids of `pieces`: each piece's id, the unknown id for a piece outside the
    /// vocabulary, or nothing when there is no unknown id.
    pub open spec fn ids_of(&self, pieces: Seq<Seq<char>>) -> Seq<i32>
        decreases pieces.len(),
    {
        if pieces.len() == 0 {
            Seq::empty()
        } else {
            let last = pieces.last();
            self.ids_of(pieces.drop_last()) + if self.token_ids().contains_key(last) {
                seq![self.token_ids()[last]]
            } else {
                match self.unknown_id() {
                    Some(u) => seq![u],
                    None => Seq::empty(),
                }
            }
        }
    }

    /// The ids of one pre-tokenized word: its subwords (over its UTF-8 bytes in the
    /// byte-level alphabet, when byte-level) looked up.
    pub open spec fn word_ids(&self, w: Seq<char>) -> Seq<i32> {
        self.ids_of(
            self.subwords(
                if self.is_byte_level() {
                    byte_mapped(encode_utf8(w))
                } else {
                    w
                },
            ),
        )
    }

    /// The ids of the words `ws`, in order.
    pub open spec fn words_ids(&self, ws: Seq<Seq<char>>) -> Seq<i32>
        decreases ws.len(),
    {
        if ws.len() == 0 {
            Seq::empty()
        } else {
            self.words_ids(ws.drop_last()) + self.word_ids(ws.last())
        }
    }

    /// The encoding of `text`: the ids of its pre-tokenized words.
    pub open spec fn encoding(&self, text: Seq<char>) -> Seq<i32> {
        if text.len() == 0 {
            Seq::empty()
        } else {
            self.words_ids(regex_matches(self.pattern(), text))
        }
    }

    /// The tokens of `toks` that the vocabulary knows, concatenated.
    pub open spec fn joined_tokens(&self, toks: Seq<i32>) -> Seq<char>
        decreases toks.len(),
    {
        if toks.len() == 0 {
            Seq::empty()
        } else {
            self.joined_tokens(toks.drop_last()) + if self.id_tokens().contains_key(toks.last()) {
                self.id_tokens()[toks.last()]
            } else {
                Seq::empty()
            }
        }
    }

    /// The decoding of `toks`: the known tokens joined; when byte-level, read back as
    /// bytes (a char outside the alphabet as its own UTF-8) and decoded when that is
    /// valid UTF-8.
    pub open spec fn decoding(&self, toks: Seq<i32>) -> Seq<char> {
        let j = self.joined_tokens(toks);
        if self.is_byte_level() {
            let bs = unmapped_bytes(j);
            if valid_utf8(bs) {
                decode_utf8(bs)
            } else {
                j
            }
        } else {
            j
        }
    }
}

/// `a` followed by `b` stands at index `j` of `parts`.
pub open spec fn adjacent_at(parts: Seq<Seq<char>>, j: int, a: Seq<char>, b: Seq<char>) -> bool {
    0 <= j && j + 1 < parts.len() && parts[j] == a && parts[j + 1] == b
}

/// Bytes written in the byte-level alphabet.
pub open spec fn byte_mapped(bytes: Seq<u8>) -> Seq<char> {
    Seq::new(bytes.len(), |i: int| byte_char(bytes[i]))
}

/// The bytes that chars of the byte-level alphabet stand for; any other char as its
/// own UTF-8.
pub open spec fn unmapped_bytes(cs: Seq<char>) -> Seq<u8>
    decreases cs.len(),
{
    if cs.len() == 0 {
        Seq::empty()
    } else {
        unmapped_bytes(cs.drop_last()) + match char_byte(cs.last()) {
            Some(b) => seq![b],
            None => encode_utf8(seq![cs.last()]),
        }
    }
}

/// The plain value of an optional pair of strings.
pub open spec fn pair_view(p: Option<(String, String)>) -> Option<(Seq<char>, Seq<char>)> {
    match p {
        Some((a, b)) => Some((a@, b@)),
        None => None,
    }
}

fn merge_all(parts: &Vec<String>, a: &String, b: &String) -> (r: Vec<String>)
    ensures
        r.deep_view() == merge_pass(parts.deep_view(), a@, b@, 0),
{
    let ghost pv = parts.deep_view();
    let n = parts.len();
    let mut out: Vec<String> = Vec::new();
    let mut i: usize = 0;
    while i < n
        invariant
            n == parts@.len(),
            pv == parts.deep_view(),
            i <= n,
            out.deep_view() + merge_pass(pv, a@, b@, i as int) == merge_pass(pv, a@, b@, 0),
        decreases n - i,
    {
        let ghost before = out.deep_view();
        assert(pv[i as int] == parts@[i as int]@);
        if n - i > 1 && parts[i] == *a && parts[i + 1] == *b {
            assert(pv[i + 1] == parts@[i + 1]@);
            let s = joined(a.as_str(), b.as_str());
            out.push(s);
            assert(out.deep_view() =~= before + seq![a@ + b@]);
            i += 2;
        } else {
            let s = parts[i].clone();
            out.push(s);
            assert(out.deep_view() =~= before + seq![pv[i as int]]);
            i += 1;
        }
    }
    assert(out.deep_view() + Seq::<Seq<char>>::empty() =~= out.deep_view());
    out
}

impl BpeTokenizer {
    fn find_best_pair(&self, parts: &Vec<String>) -> (r: Option<(String, String)>)
        requires
            parts@.len() > 0,
        ensures
            pair_view(r) == self.best_pair(parts.deep_view(), 0, None, usize::MAX as int),
    {
        let ghost pv = parts.deep_view();
        let mut best: Option<(String, String)> = None;
        let mut min_rank: usize = usize::MAX;
        let mut i: usize = 0;
        while i < parts.len() - 1
            invariant
                parts@.len() > 0,
                i <= parts@.len() - 1,
                pv == parts.deep_view(),
                self.best_pair(pv, 0, None, usize::MAX as int) == self.best_pair(
                    pv,
                    i as int,
                    pair_view(best),
                    min_rank as int,
                ),
            decreases parts@.len() - 1 - i,
        {
            assert(pv[i as int] == parts@[i as int]@);
            assert(pv[i + 1] == parts@[i + 1]@);
            match self.merge_rank(parts[i].as_str(), parts[i + 1].as_str()) {
                Some(r) => {
                    if r < min_rank {
                        min_rank = r;
                        best = Some((parts[i].clone(), parts[i + 1].clone()));
                    }
                },
                None => {},
            }
            i += 1;
        }
        best
    }

    /// The subwords of `word`: its chars as pieces, the best-ranked adjacent pair
    /// merged everywhere, again and again, until no adjacent pair merges.
    pub fn bpe(&self, word: &str) -> (pieces: Vec<String>)
        ensures
            pieces.deep_view() == self.subwords(word@),
    {
        let cs = chars_of(word);
        if cs.len() == 0 {
            return Vec::new();
        }
        let mut parts: Vec<String> = Vec::new();
        let mut k: usize = 0;
        while k < cs.len()
            invariant
                k <= cs@.len(),
                parts.deep_view() == single_chars(cs@).take(k as int),
            decreases cs@.len() - k,
        {
            let mut s = String::new();
            push_char(&mut s, cs[k]);
            let ghost sv = s@;
            assert(sv =~= seq![cs@[k as int]]);
            let ghost before = parts.deep_view();
            parts.push(s);
            assert(parts.deep_view() =~= before.push(sv));
            assert(parts.deep_view() =~= single_chars(cs@).take(k + 1));
            k += 1;
        }
        assert(single_chars(cs@).take(k as int) =~= single_chars(cs@));
        let ghost start = parts.deep_view();
        loop
            invariant
                parts@.len() > 0,
                self.merged(parts.deep_view()) == self.merged(start),
            ensures
                parts.deep_view() == self.merged(start),
            decreases parts@.len(),
        {
            let ghost pv = parts.deep_view();
            let best = self.find_best_pair(&parts);
            match best {
                None => {
                    break;
                },
                Some((a, b)) => {
                    proof {
                        let nb: Option<(Seq<char>, Seq<char>)> = None;
                        self.lemma_best_pair_found(pv, 0, nb, usize::MAX as int);
                        let j = choose|j: int| #[trigger] adjacent_at(pv, j, a@, b@);
                        lemma_merge_pass_len(pv, a@, b@, 0, j);
                    }
                    let next = merge_all(&parts, &a, &b);
                    proof {
                        lemma_merge_pass_len(pv, a@, b@, 0, 0);
                    }
                    if next.len() == 0 {
                        assert(false);
                        break;
                    }
                    parts = next;
                },
            }
        }
        parts
    }

    fn push_ids(&self, ids: &mut Vec<i32>, pieces: &Vec<String>)
        ensures
            final(ids)@ == old(ids)@ + self.ids_of(pieces.deep_view()),
    {
        let ghost start = ids@;
        let mut k: usize = 0;
        while k < pieces.len()
            invariant
                k <= pieces@.len(),
                ids@ == start + self.ids_of(pieces.deep_view().take(k as int)),
            decreases pieces@.len() - k,
        {
            let ghost t = pieces.deep_view().take(k + 1);
            assert(t.drop_last() =~= pieces.deep_view().take(k as int));
            assert(t.last() == pieces@[k as int]@);
            let ghost before = ids@;
            match self.vocab.get(pieces[k].as_str()) {
                Some(id) => {
                    ids.push(*id);
                    assert(ids@ =~= before + seq![*id]);
                },
                None => match self.unknown_token_id {
                    Some(u) => {
                        ids.push(u);
                        assert(ids@ =~= before + seq![u]);
                    },
                    None => {
                        assert(ids@ =~= before + Seq::<i32>::empty());
                    },
                },
            }
            k += 1;
        }
        assert(pieces.deep_view().take(k as int) =~= pieces.deep_view());
    }

    /// The ids of `text`: its pre-tokenized words, each (over its UTF-8 bytes in the
    /// byte-level alphabet, when byte-level) split into subwords and looked up; a
    /// subword outside the vocabulary gives the unknown id, or nothing.
    pub fn encode(&self, text: &str) -> (ids: Vec<i32>)
        ensures
            ids@ == self.encoding(text@),
    {
        let mut ids: Vec<i32> = Vec::new();
        if text.is_empty() {
            return ids;
        }
        let words = find_all(&self.regex, text);
        let ghost ws = words.deep_view();
        let mut k: usize = 0;
        assert(ws.take(0) =~= Seq::<Seq<char>>::empty());
        while k < words.len()
            invariant
                k <= words@.len(),
                ws == words.deep_view(),
                ids@ == self.words_ids(ws.take(k as int)),
            decreases words@.len() - k,
        {
            let ghost t = ws.take(k + 1);
            assert(t.drop_last() =~= ws.take(k as int));
            assert(t.last() == words@[k as int]@);
            let word = words[k].as_str();
            if self.byte_level {
                let bytes = word.as_bytes();
                let mut mapped = String::new();
                let mut j: usize = 0;
                while j < bytes.len()
                    invariant
                        j <= bytes@.len(),
                        mapped@ == byte_mapped(bytes@).take(j as int),
                    decreases bytes@.len() - j,
                {
                    push_char(&mut mapped, byte_to_unicode(bytes[j]));
                    j += 1;
                    assert(mapped@ =~= byte_mapped(bytes@).take(j as int));
                }
                assert(byte_mapped(bytes@).take(j as int) =~= byte_mapped(bytes@));
                let subwords = self.bpe(mapped.as_str());
                self.push_ids(&mut ids, &subwords);
            } else {
                let subwords = self.bpe(word);
                self.push_ids(&mut ids, &subwords);
            }
            k += 1;
        }
        assert(ws.take(k as int) =~= ws);
        ids
    }

    /// The text of `tokens`: the tokens the vocabulary knows, joined; when
    /// byte-level, read back from the byte-level alphabet into bytes and decoded, the
    /// joined tokens themselves when those bytes are not UTF-8.
    pub fn decode(&self, tokens: &[i32]) -> (text: String)
        ensures
            text@ == self.decoding(tokens@),
    {
        broadcast use vstd::std_specs::hash::group_hash_axioms;
        let mut joined_chars: Vec<char> = Vec::new();
        let mut k: usize = 0;
        assert(tokens@.take(0) =~= Seq::<i32>::empty());
        while k < tokens.len()
            invariant
                k <= tokens@.len(),
                joined_chars@ == self.joined_tokens(tokens@.take(k as int)),
            decreases tokens@.len() - k,
        {
            let ghost t = tokens@.take(k + 1);
            assert(t.drop_last() =~= tokens@.take(k as int));
            assert(t.last() == tokens@[k as int]);
            let ghost before = joined_chars@;
            match self.inverse_vocab.get(&tokens[k]) {
                Some(s) => {
                    extend_chars(&mut joined_chars, s.as_str());
                },
                None => {
                    assert(joined_chars@ =~= before + Seq::<char>::empty());
                },
            }
            k += 1;
        }
        assert(tokens@.take(k as int) =~= tokens@);
        if self.byte_level {
            let mut bytes: Vec<u8> = Vec::new();
            let mut j: usize = 0;
            assert(joined_chars@.take(0) =~= Seq::<char>::empty());
            while j < joined_chars.len()
                invariant
                    j <= joined_chars@.len(),
                    bytes@ == unmapped_bytes(joined_chars@.take(j as int)),
                decreases joined_chars@.len() - j,
            {
                let ghost t = joined_chars@.take(j + 1);
                assert(t.drop_last() =~= joined_chars@.take(j as int));
                assert(t.last() == joined_chars@[j as int]);
                let ghost before = bytes@;
                let c = joined_chars[j];
                match unicode_to_byte(c) {
                    Some(b) => {
                        bytes.push(b);
                        assert(bytes@ =~= before + seq![b]);
                    },
                    None => {
                        let mut one = String::new();
                        push_char(&mut one, c);
                        let ob = one.as_str().as_bytes();
                        let mut q: usize = 0;
                        while q < ob.len()
                            invariant
                                q <= ob@.len(),
                                bytes@ == before + ob@.take(q as int),
                            decreases ob@.len() - q,
                        {
                            bytes.push(ob[q]);
                            q += 1;
                            assert(bytes@ =~= before + ob@.take(q as int));
                        }
                        assert(ob@.take(q as int) =~= ob@);
                        assert(one@ =~= seq![c]);
                    },
                }
                j += 1;
            }
            assert(joined_chars@.take(j as int) =~= joined_chars@);
            match from_utf8(bytes.as_slice()) {
                Ok(s) => {
                    proof {
                        vstd::utf8::encode_utf8_decode_utf8(s@);
                    }
                    String::from_str(s)
                },
                Err(_) => string_from_chars(joined_chars.as_slice()),
            }
        } else {
            string_from_chars(joined_chars.as_slice())
        }
    }
}

/// Calls `ToString::to_string` on a UTF-8 error, which gives its `Display` text.
#[verifier::external_body]
fn utf8_error_text(e: &std::str::Utf8Error) -> String {
    e.to_string()
}

/// Calls `ToString::to_string` on a regular expression error, which gives its
/// `Display` text.
#[verifier::external_body]
fn regex_error_text(e: &regex::Error) -> String {
    e.to_string()
}

/// Bytes written as a list: `[` then the decimal bytes separated by `, ` then `]`.
pub open spec fn byte_list(bs: Seq<u8>) -> Seq<char> {
    seq!['['] + byte_list_items(bs) + seq![']']
}

/// The decimal bytes of `bs` separated by `, `.
pub open spec fn byte_list_items(bs: Seq<u8>) -> Seq<char>
    decreases bs.len(),
{
    if bs.len() == 0 {
        Seq::empty()
    } else if bs.len() == 1 {
        decimal_digits(bs[0] as nat)
    } else {
        byte_list_items(bs.drop_last()) + ", "@ + decimal_digits(bs.last() as nat)
    }
}

fn byte_list_text(bs: &Vec<u8>) -> (s: String)
    ensures
        s@ == byte_list(bs@),
{
    let mut out: Vec<char> = Vec::new();
    out.push('[');
    let mut k: usize = 0;
    assert(bs@.take(0) =~= Seq::<u8>::empty());
    while k < bs.len()
        invariant
            k <= bs@.len(),
            out@ == seq!['['] + byte_list_items(bs@.take(k as int)),
        decreases bs@.len() - k,
    {
        let ghost t = bs@.take(k + 1);
        assert(t.drop_last() =~= bs@.take(k as int));
        assert(t.last() == bs@[k as int]);
        let ghost before = out@;
        if k > 0 {
            extend_chars(&mut out, ", ");
        }
        let d = decimal_text(bs[k] as u64);
        extend_chars(&mut out, d.as_str());
        if k == 0 {
            assert(t.len() == 1);
            assert(out@ =~= seq!['['] + byte_list_items(t));
        } else {
            assert(out@ =~= seq!['['] + byte_list_items(t));
        }
        k += 1;
    }
    assert(bs@.take(k as int) =~= bs@);
    out.push(']');
    string_from_chars(out.as_slice())
}

impl BpeError {
    /// The error's display text.
    pub fn message(&self) -> (s: String)
        ensures
            self is InvalidSize ==> s@ == "Invalid file size for .pvocab format"@,
            self matches BpeError::InvalidMagic(m) ==> s@
                == "Invalid magic header: expected 'PVOC', got "@ + byte_list(m@),
            self matches BpeError::UnsupportedVersion(v) ==> s@ == "Unsupported version: "@
                + decimal_digits(v as nat),
            self is MalformedVocab ==> s@ == "Malformed vocabulary section"@,
            self is MalformedToken ==> s@ == "Malformed token string in vocabulary"@,
            self is InvalidUtf8Vocab ==> starts_with(s@, "Invalid UTF-8 in vocabulary: "@),
            self is MalformedMerges ==> s@ == "Malformed merges section"@,
            self is MalformedMergePart1 ==> s@ == "Malformed merge rule part 1"@,
            self is MalformedMergePart2Length ==> s@ == "Malformed merge rule part 2 length"@,
            self is MalformedMergePart2 ==> s@ == "Malformed merge rule part 2"@,
            self is InvalidRegex ==> starts_with(s@, "Invalid regex pattern: "@),
    {
        match self {
            BpeError::InvalidSize => String::from_str("Invalid file size for .pvocab format"),
            BpeError::InvalidMagic(m) => {
                let l = byte_list_text(m);
                joined("Invalid magic header: expected 'PVOC', got ", l.as_str())
            },
            BpeError::UnsupportedVersion(v) => {
                let d = decimal_text(*v as u64);
                joined("Unsupported version: ", d.as_str())
            },
            BpeError::MalformedVocab => String::from_str("Malformed vocabulary section"),
            BpeError::MalformedToken => String::from_str("Malformed token string in vocabulary"),
            BpeError::InvalidUtf8Vocab(e) => {
                let t = utf8_error_text(e);
                let s = joined("Invalid UTF-8 in vocabulary: ", t.as_str());
                assert(s@.take("Invalid UTF-8 in vocabulary: "@.len() as int)
                    =~= "Invalid UTF-8 in vocabulary: "@);
                s
            },
            BpeError::MalformedMerges => String::from_str("Malformed merges section"),
            BpeError::MalformedMergePart1 => String::from_str("Malformed merge rule part 1"),
            BpeError::MalformedMergePart2Length => String::from_str(
                "Malformed merge rule part 2 length",
            ),
            BpeError::MalformedMergePart2 => String::from_str("Malformed merge rule part 2"),
            BpeError::InvalidRegex(e) => {
                let t = regex_error_text(e);
                let s = joined("Invalid regex pattern: ", t.as_str());
                assert(s@.take("Invalid regex pattern: "@.len() as int) =~= "Invalid regex pattern: "@);
                s
            },
        }
    }
}

} // verus!
