//! The integer side of synthesis: phoneme ids for the acoustic model, which id
//! slots each token's phonemes fill, where each word lies in the text, and which
//! words get a timestamp.

use vstd::prelude::*;
use crate::g2p::MToken;
use crate::pipeline::{map_styletts2_to_matcha_ipa, matcha_char, matcha_ipa};
use vstd::string::StringSliceAdditionalSpecFns;
use crate::tagger::opt_chars;
use crate::text::{chars_of, extend_chars, str_empty, str_eq, string_from_chars, string_from_range, trim, trimmed_string};
use crate::voice_loader::{count_leading_ws, count_trailing_ws, leading_ws, lemma_leading_ws_trim, trailing_ws};

verus! {

/// A vocabulary as its entries.
pub open spec fn vocab_view(v: Seq<(String, i32)>) -> Seq<(Seq<char>, i32)> {
    v.map_values(|e: (String, i32)| (e.0@, e.1))
}

/// The id of `c` in the vocabulary: that of the first entry whose key is `c` alone.
pub open spec fn vocab_id(vocab: Seq<(Seq<char>, i32)>, c: char) -> Option<i32>
    decreases vocab.len(),
{
    if vocab.len() == 0 {
        None
    } else if vocab[0].0 == seq![c] {
        Some(vocab[0].1)
    } else {
        vocab_id(vocab.drop_first(), c)
    }
}

/// The ids of the chars of `s` the vocabulary holds, in order.
pub open spec fn ids_of(s: Seq<char>, vocab: Seq<(Seq<char>, i32)>) -> Seq<i32>
    decreases s.len(),
{
    if s.len() == 0 {
        Seq::empty()
    } else {
        ids_of(s.drop_last(), vocab) + match vocab_id(vocab, s.last()) {
            Some(i) => seq![i],
            None => Seq::empty(),
        }
    }
}

/// Phonemes as the model takes them: in Matcha's IPA for a Matcha model.
pub open spec fn as_fed(s: Seq<char>, matcha: bool) -> Seq<char> {
    if matcha {
        matcha_ipa(s)
    } else {
        s
    }
}

/// The id of `c`, if the vocabulary holds it.
fn lookup_id(vocab: &Vec<(String, i32)>, c: char) -> (r: Option<i32>)
    ensures
        r == vocab_id(vocab_view(vocab@), c),
{
    let ghost vv = vocab_view(vocab@);
    let mut k: usize = 0;
    assert(vv.skip(0) =~= vv);
    while k < vocab.len()
        invariant
            k <= vocab@.len(),
            vv == vocab_view(vocab@),
            vocab_id(vv, c) == vocab_id(vv.skip(k as int), c),
        decreases vocab@.len() - k,
    {
        assert(vv.skip(k as int)[0] == vv[k as int]);
        assert(vv.skip(k as int).drop_first() =~= vv.skip(k + 1));
        let key = chars_of(vocab[k].0.as_str());
        if key.len() == 1 && key[0] == c {
            assert(key@ =~= seq![c]);
            return Some(vocab[k].1);
        }
        assert(vv.skip(k as int)[0].0 != seq![c]) by {
            if key@ == seq![c] {
                assert(key@.len() == 1);
            }
        }
        k += 1;
    }
    assert(vv.skip(k as int) =~= Seq::<(Seq<char>, i32)>::empty());
    None
}

/// The ids of the chars of `s` the vocabulary holds.
fn ids_in(s: &str, vocab: &Vec<(String, i32)>) -> (r: Vec<i32>)
    ensures
        r@ == ids_of(s@, vocab_view(vocab@)),
{
    let cs = chars_of(s);
    ids_in_chars(cs.as_slice(), vocab)
}

/// The ids of the chars of `cs` the vocabulary holds.
fn ids_in_chars(cs: &[char], vocab: &Vec<(String, i32)>) -> (r: Vec<i32>)
    ensures
        r@ == ids_of(cs@, vocab_view(vocab@)),
{
    let mut out: Vec<i32> = Vec::new();
    let mut k: usize = 0;
    while k < cs.len()
        invariant
            k <= cs@.len(),
            out@ == ids_of(cs@.take(k as int), vocab_view(vocab@)),
        decreases cs@.len() - k,
    {
        assert(cs@.take(k + 1).drop_last() =~= cs@.take(k as int));
        match lookup_id(vocab, cs[k]) {
            Some(i) => out.push(i),
            None => {},
        }
        assert(out@ =~= ids_of(cs@.take(k + 1), vocab_view(vocab@)));
        k += 1;
    }
    assert(cs@.take(k as int) =~= cs@);
    out
}

/// Phonemes as the model takes them (see `as_fed`).
fn fed(s: &str, is_matcha: bool) -> (r: String)
    ensures
        r@ == as_fed(s@, is_matcha),
{
    if is_matcha {
        map_styletts2_to_matcha_ipa(s)
    } else {
        String::from_str(s)
    }
}

/// The model's input ids for `phonemes`: a 0, the ids of the chars the vocabulary
/// holds (of the Matcha spelling for a Matcha model), and a 0.
pub fn tokenize_phonemes(phonemes: &str, is_matcha: bool, vocab: &Vec<(String, i32)>) -> (r: Vec<i32>)
    ensures
        r@ == seq![0i32] + ids_of(as_fed(phonemes@, is_matcha), vocab_view(vocab@)) + seq![0i32],
{
    let mapped = fed(phonemes, is_matcha);
    let ids = ids_in(mapped.as_str(), vocab);
    let mut out: Vec<i32> = vec![0];
    let mut k: usize = 0;
    while k < ids.len()
        invariant
            k <= ids@.len(),
            out@ == seq![0i32] + ids@.take(k as int),
        decreases ids@.len() - k,
    {
        out.push(ids[k]);
        assert(out@ =~= seq![0i32] + ids@.take(k + 1));
        k += 1;
    }
    out.push(0);
    assert(ids@.take(k as int) =~= ids@);
    assert(out@ =~= seq![0i32] + ids@ + seq![0i32]);
    out
}

/// A token's phonemes, empty where it has none.
pub open spec fn phonemes_or_empty(m: (Seq<char>, Seq<char>, Seq<char>, Option<Seq<char>>)) -> Seq<char> {
    match m.3 {
        Some(p) => p,
        None => Seq::empty(),
    }
}

/// How many id slots a token's phonemes and then its whitespace fill.
pub open spec fn slot_count(
    m: (Seq<char>, Seq<char>, Seq<char>, Option<Seq<char>>),
    matcha: bool,
    vocab: Seq<(Seq<char>, i32)>,
) -> int {
    (ids_of(as_fed(phonemes_or_empty(m), matcha), vocab).len() + ids_of(as_fed(m.2, matcha), vocab).len()) as int
}

/// The first free slot after `count` more slots are filled from `p`, slots ending
/// before `limit`.
pub open spec fn slot_step(p: int, count: int, limit: int) -> int {
    if p >= limit {
        p
    } else if p + count < limit {
        p + count
    } else {
        limit
    }
}

/// The first slot token `k` fills: slots start at 1 (after the leading 0).
pub open spec fn slot_start(
    ms: Seq<(Seq<char>, Seq<char>, Seq<char>, Option<Seq<char>>)>,
    matcha: bool,
    vocab: Seq<(Seq<char>, i32)>,
    limit: int,
    k: int,
) -> int
    decreases k,
{
    if k <= 0 {
        1
    } else {
        slot_step(slot_start(ms, matcha, vocab, limit, k - 1), slot_count(ms[k - 1], matcha, vocab), limit)
    }
}

/// The tokens in chars.
pub open spec fn token_views(ts: Seq<MToken>) -> Seq<(Seq<char>, Seq<char>, Seq<char>, Option<Seq<char>>)> {
    ts.map_values(|t: MToken| t@)
}

/// The slot after `count` more are filled from `p` (see `slot_step`).
fn advance(p: usize, count: usize, limit: usize) -> (r: usize)
    ensures
        r as int == slot_step(p as int, count as int, limit as int),
{
    if p >= limit {
        p
    } else if count < limit - p {
        p + count
    } else {
        limit
    }
}

/// The slots of each token: token `k` fills slots `r[k].0 .. r[k].1` of the `n`
/// ids the model works with (slot 0 and slot `n - 1` are the bounding zeros).
pub fn slot_ranges(tokens: &[MToken], is_matcha: bool, vocab: &Vec<(String, i32)>, n: usize) -> (r: Vec<(usize, usize)>)
    ensures
        r@.len() == tokens@.len(),
        forall|k: int|
            0 <= k < r@.len() ==> r@[k].0 as int == slot_start(
                token_views(tokens@),
                is_matcha,
                vocab_view(vocab@),
                if n >= 1 { n - 1 } else { 0 },
                k,
            ) && r@[k].1 as int == slot_start(
                token_views(tokens@),
                is_matcha,
                vocab_view(vocab@),
                if n >= 1 { n - 1 } else { 0 },
                k + 1,
            ),
{
    let limit: usize = if n >= 1 { n - 1 } else { 0 };
    let ghost ms = token_views(tokens@);
    let ghost vv = vocab_view(vocab@);
    let mut out: Vec<(usize, usize)> = Vec::new();
    let mut p: usize = 1;
    let mut k: usize = 0;
    while k < tokens.len()
        invariant
            ms == token_views(tokens@),
            vv == vocab_view(vocab@),
            limit == (if n >= 1 { n - 1 } else { 0 }),
            k <= tokens@.len(),
            out@.len() == k,
            p as int == slot_start(ms, is_matcha, vv, limit as int, k as int),
            forall|j: int|
                0 <= j < k ==> out@[j].0 as int == slot_start(ms, is_matcha, vv, limit as int, j) && out@[j].1 as int
                    == slot_start(ms, is_matcha, vv, limit as int, j + 1),
        decreases tokens@.len() - k,
    {
        let t = &tokens[k];
        assert(ms[k as int] == t@);
        let ph = match &t.phonemes {
            Some(x) => fed(x.as_str(), is_matcha),
            None => fed("", is_matcha),
        };
        proof {
            reveal_strlit("");
            assert(phonemes_or_empty(t@) == match t.phonemes {
                Some(x) => x@,
                None => ""@,
            });
        }
        let ws = fed(t.whitespace.as_str(), is_matcha);
        let a = ids_in(ph.as_str(), vocab);
        let b = ids_in(ws.as_str(), vocab);
        let q = advance(advance(p, a.len(), limit), b.len(), limit);
        assert(q as int == slot_step(p as int, slot_count(ms[k as int], is_matcha, vv), limit as int));
        out.push((p, q));
        p = q;
        k += 1;
    }
    out
}

/// Where a word lies in the text, and its trimmed text when it gets a timestamp.
pub struct WordSpan {
    pub start_char: u32,
    pub end_char: u32,
    pub word: Option<String>,
}

/// A token gets a timestamp: it has text (once trimmed) and phonemes, and is not
/// sentence or clause punctuation.
pub open spec fn stamped(m: (Seq<char>, Seq<char>, Seq<char>, Option<Seq<char>>)) -> bool {
    trim(m.0).len() > 0 && phonemes_or_empty(m).len() > 0 && m.1 != "."@ && m.1 != ","@ && m.1 != ":"@
}

/// The char offset token `k` starts at: `start`, then each token's text and
/// whitespace, counted in 32 bits (wrapping).
pub open spec fn word_offset(ms: Seq<(Seq<char>, Seq<char>, Seq<char>, Option<Seq<char>>)>, start: u32, k: int) -> u32
    decreases k,
{
    if k <= 0 {
        start
    } else {
        word_offset(ms, start, k - 1).wrapping_add(ms[k - 1].0.len() as u32).wrapping_add(ms[k - 1].2.len() as u32)
    }
}

/// A word span as numbers and chars.
pub open spec fn span_view(w: WordSpan) -> (u32, u32, Option<Seq<char>>) {
    (w.start_char, w.end_char, opt_chars(w.word))
}

/// Where each token lies in the text from offset `start` on (see `word_offset`),
/// and the trimmed text of those that get a timestamp (see `stamped`).
pub fn word_spans(tokens: &[MToken], start: u32) -> (r: Vec<WordSpan>)
    ensures
        r@.len() == tokens@.len(),
        forall|k: int|
            0 <= k < r@.len() ==> span_view(#[trigger] r@[k]) == (
                word_offset(token_views(tokens@), start, k),
                word_offset(token_views(tokens@), start, k + 1),
                if stamped(token_views(tokens@)[k]) {
                    Some(trim(token_views(tokens@)[k].0))
                } else {
                    None
                },
            ),
{
    let ghost ms = token_views(tokens@);
    let mut out: Vec<WordSpan> = Vec::new();
    let mut offset = start;
    let mut k: usize = 0;
    while k < tokens.len()
        invariant
            ms == token_views(tokens@),
            k <= tokens@.len(),
            out@.len() == k,
            offset == word_offset(ms, start, k as int),
            forall|j: int|
                0 <= j < k ==> span_view(#[trigger] out@[j]) == (
                    word_offset(ms, start, j),
                    word_offset(ms, start, j + 1),
                    if stamped(ms[j]) {
                        Some(trim(ms[j].0))
                    } else {
                        None
                    },
                ),
        decreases tokens@.len() - k,
    {
        let t = &tokens[k];
        assert(ms[k as int] == t@);
        let tc = chars_of(t.text.as_str());
        let wc = chars_of(t.whitespace.as_str());
        let next = offset.wrapping_add(tc.len() as u32).wrapping_add(wc.len() as u32);
        let clean = trimmed_string(tc.as_slice(), 0, tc.len());
        assert(tc@.subrange(0, tc@.len() as int) =~= tc@);
        let has_phonemes = match &t.phonemes {
            Some(p) => !str_empty(p.as_str()),
            None => false,
        };
        let tag = t.tag.as_str();
        let word = if !str_empty(clean.as_str()) && has_phonemes && !str_eq(tag, ".") && !str_eq(tag, ",") && !str_eq(
            tag,
            ":",
        ) {
            Some(clean)
        } else {
            None
        };
        out.push(WordSpan { start_char: offset, end_char: next, word });
        offset = next;
        k += 1;
    }
    out
}

/// The phonemes of the tokens, each followed by its whitespace, trimmed.
pub fn spoken_phonemes(tokens: &[MToken]) -> (r: String)
    ensures
        r@ == trim(joined_phonemes(token_views(tokens@), tokens@.len() as int)),
{
    let ghost ms = token_views(tokens@);
    let mut all: Vec<char> = Vec::new();
    let mut k: usize = 0;
    while k < tokens.len()
        invariant
            ms == token_views(tokens@),
            k <= tokens@.len(),
            all@ == joined_phonemes(ms, k as int),
        decreases tokens@.len() - k,
    {
        let t = &tokens[k];
        assert(ms[k as int] == t@);
        match &t.phonemes {
            Some(p) => extend_chars(&mut all, p.as_str()),
            None => {},
        }
        extend_chars(&mut all, t.whitespace.as_str());
        k += 1;
    }
    assert(all@.subrange(0, all@.len() as int) =~= all@);
    trimmed_string(all.as_slice(), 0, all.len())
}

/// The phonemes and whitespace of the first `n` tokens, one after another.
pub open spec fn joined_phonemes(ms: Seq<(Seq<char>, Seq<char>, Seq<char>, Option<Seq<char>>)>, n: int) -> Seq<char>
    decreases n,
{
    if n <= 0 {
        Seq::empty()
    } else {
        joined_phonemes(ms, n - 1) + phonemes_or_empty(ms[n - 1]) + ms[n - 1].2
    }
}


/// A phoneme as the model takes it.
pub open spec fn fed_char(c: char, matcha: bool) -> Seq<char> {
    if matcha {
        matcha_char(c)
    } else {
        seq![c]
    }
}

/// The phonemes as the model takes them, char by char.
pub open spec fn fed_chars(s: Seq<char>, matcha: bool) -> Seq<char>
    decreases s.len(),
{
    if s.len() == 0 {
        Seq::empty()
    } else {
        fed_chars(s.drop_last(), matcha) + fed_char(s.last(), matcha)
    }
}

/// The state of each model slot: each phoneme's state once for each of its fed
/// chars the vocabulary holds.
pub open spec fn slot_states(s: Seq<char>, st: Seq<Option<int>>, matcha: bool, vocab: Seq<(Seq<char>, i32)>) -> Seq<Option<int>>
    decreases s.len(),
{
    if s.len() == 0 || st.len() != s.len() {
        Seq::empty()
    } else {
        slot_states(s.drop_last(), st.drop_last(), matcha, vocab) + Seq::new(
            ids_of(fed_char(s.last(), matcha), vocab).len(),
            |i: int| st.last(),
        )
    }
}

/// The phonemes of the first `n` tokens of a chunk, each followed by its whitespace.
pub open spec fn chunk_chars(ms: Seq<(Seq<char>, Seq<char>, Seq<char>, Option<Seq<char>>)>, n: int) -> Seq<char> {
    joined_phonemes(ms, n)
}

/// The markup state each of those chars is read in: that at the char where its
/// token starts in the text (from `offset`), if there is one (`None` for the
/// default state).
pub open spec fn chunk_states(
    ms: Seq<(Seq<char>, Seq<char>, Seq<char>, Option<Seq<char>>)>,
    offset: u32,
    n_states: int,
    n: int,
) -> Seq<Option<int>>
    decreases n,
{
    if n <= 0 {
        Seq::empty()
    } else {
        let o = word_offset(ms, offset, n - 1) as int;
        let st = if o < n_states {
            Some(o)
        } else {
            None
        };
        chunk_states(ms, offset, n_states, n - 1) + Seq::new(
            (phonemes_or_empty(ms[n - 1]) + ms[n - 1].2).len(),
            |i: int| st,
        )
    }
}

/// Where a chunk's phonemes start once leading whitespace is dropped.
pub open spec fn chunk_lo(s: Seq<char>) -> int {
    leading_ws(s) as int
}

/// Where they end once trailing whitespace is dropped.
pub open spec fn chunk_hi(s: Seq<char>) -> int {
    s.len() - trailing_ws(s.skip(chunk_lo(s)))
}

/// A chunk of tokens laid out for the model under markup: the char offset after
/// it, its trimmed phonemes, those as the model takes them, and the markup state
/// of each model slot between the bounding zeros.
pub struct MarkupChunk {
    pub next_offset: u32,
    pub phonemes: String,
    pub fed: String,
    pub slot_states: Vec<Option<usize>>,
}

/// The fed chars of one phoneme.
fn fed_char_of(c: char, is_matcha: bool) -> (r: Vec<char>)
    ensures
        r@ == fed_char(c, is_matcha),
{
    let r = if !is_matcha {
        vec![c]
    } else if c == 'A' {
        vec!['e', '\u{26a}']
    } else if c == 'I' {
        vec!['a', '\u{26a}']
    } else if c == 'O' {
        vec!['o', '\u{28a}']
    } else if c == 'Q' {
        vec!['\u{259}', '\u{28a}']
    } else if c == 'W' {
        vec!['a', '\u{28a}']
    } else if c == 'Y' {
        vec!['\u{254}', '\u{26a}']
    } else if c == '\u{2a4}' {
        vec!['d', '\u{292}']
    } else if c == '\u{2a7}' {
        vec!['t', '\u{283}']
    } else if c == '\u{250}' || c == '\u{1d4a}' {
        vec!['\u{259}']
    } else if c == '\u{1d7b}' {
        vec!['\u{26a}']
    } else {
        vec![c]
    };
    assert(r@ =~= fed_char(c, is_matcha));
    r
}

/// Slot states as integers.
pub open spec fn int_states(v: Seq<Option<usize>>) -> Seq<Option<int>> {
    v.map_values(
        |o: Option<usize>|
            match o {
                Some(i) => Some(i as int),
                None => None,
            },
    )
}

/// Lay a chunk of tokens out under markup (see `MarkupChunk`): `n_states` is how many
/// chars of the text carry a markup state.
pub fn markup_chunk(
    tokens: &[MToken],
    offset: u32,
    n_states: usize,
    is_matcha: bool,
    vocab: &Vec<(String, i32)>,
) -> (r: MarkupChunk)
    ensures
        ({
            let ms = token_views(tokens@);
            let s = chunk_chars(ms, ms.len() as int);
            let st = chunk_states(ms, offset, n_states as int, ms.len() as int);
            let lo = chunk_lo(s);
            let hi = chunk_hi(s);
            &&& r.next_offset == word_offset(ms, offset, ms.len() as int)
            &&& r.phonemes@ == s.subrange(lo, hi)
            &&& r.fed@ == fed_chars(s.subrange(lo, hi), is_matcha)
            &&& int_states(r.slot_states@) == slot_states(s.subrange(lo, hi), st.subrange(lo, hi), is_matcha, vocab_view(vocab@))
        }),
{
    let ghost ms = token_views(tokens@);
    let mut all: Vec<char> = Vec::new();
    let mut states: Vec<Option<usize>> = Vec::new();
    let mut o = offset;
    let mut k: usize = 0;
    while k < tokens.len()
        invariant
            ms == token_views(tokens@),
            k <= tokens@.len(),
            all@ == chunk_chars(ms, k as int),
            o == word_offset(ms, offset, k as int),
            states@.len() == all@.len(),
            int_states(states@) == chunk_states(ms, offset, n_states as int, k as int),
        decreases tokens@.len() - k,
    {
        let t = &tokens[k];
        assert(ms[k as int] == t@);
        let st: Option<usize> = if (o as usize) < n_states {
            Some(o as usize)
        } else {
            None
        };
        let ghost before_all = all@;
        let ghost before_states = states@;
        match &t.phonemes {
            Some(p) => extend_chars(&mut all, p.as_str()),
            None => {},
        }
        extend_chars(&mut all, t.whitespace.as_str());
        while states.len() < all.len()
            invariant
                before_states.len() <= states@.len() <= all@.len(),
                states@.take(before_states.len() as int) == before_states,
                forall|j: int| before_states.len() <= j < states@.len() ==> states@[j] == st,
            decreases all@.len() - states@.len(),
        {
            states.push(st);
        }
        let ghost cs = chunk_states(ms, offset, n_states as int, k + 1);
        assert(all@ =~= before_all + phonemes_or_empty(ms[k as int]) + ms[k as int].2);
        assert forall|j: int| 0 <= j < states@.len() implies #[trigger] int_states(states@)[j] == cs[j] by {
            if j < before_states.len() {
                assert(states@[j] == states@.take(before_states.len() as int)[j]);
            }
        }
        assert(int_states(states@) =~= cs);
        let tl = chars_of(t.text.as_str()).len();
        let wl = chars_of(t.whitespace.as_str()).len();
        o = o.wrapping_add(tl as u32).wrapping_add(wl as u32);
        k += 1;
    }
    let lo = count_leading_ws(&all);
    let mut rest: Vec<char> = Vec::new();
    let mut i = lo;
    proof {
        lemma_leading_ws_trim(all@);
    }
    while i < all.len()
        invariant
            lo <= i <= all@.len(),
            rest@ == all@.subrange(lo as int, i as int),
        decreases all@.len() - i,
    {
        rest.push(all[i]);
        assert(rest@ =~= all@.subrange(lo as int, i + 1));
        i += 1;
    }
    assert(rest@ =~= all@.skip(lo as int));
    let tail = count_trailing_ws(&rest);
    let hi = all.len() - tail;
    let phonemes = string_from_range(all.as_slice(), lo, hi);
    let mut fed: Vec<char> = Vec::new();
    let mut slots: Vec<Option<usize>> = Vec::new();
    let ghost s = all@.subrange(lo as int, hi as int);
    let ghost sts = int_states(states@).subrange(lo as int, hi as int);
    let mut j = lo;
    while j < hi
        invariant
            lo <= j <= hi <= all@.len(),
            states@.len() == all@.len(),
            s == all@.subrange(lo as int, hi as int),
            sts == int_states(states@).subrange(lo as int, hi as int),
            fed@ == fed_chars(s.take(j - lo), is_matcha),
            int_states(slots@) == slot_states(s.take(j - lo), sts.take(j - lo), is_matcha, vocab_view(vocab@)),
        decreases hi - j,
    {
        let piece = fed_char_of(all[j], is_matcha);
        let ghost before_fed = fed@;
        let ghost before_slots = int_states(slots@);
        let mut q: usize = 0;
        while q < piece.len()
            invariant
                q <= piece@.len(),
                fed@ == before_fed + piece@.take(q as int),
            decreases piece@.len() - q,
        {
            fed.push(piece[q]);
            assert(fed@ =~= before_fed + piece@.take(q + 1));
            q += 1;
        }
        let n = ids_in_chars(piece.as_slice(), vocab).len();
        let mut c: usize = 0;
        while c < n
            invariant
                c <= n,
                lo <= j < hi <= all@.len(),
                states@.len() == all@.len(),
                sts == int_states(states@).subrange(lo as int, hi as int),
                int_states(slots@) == before_slots + Seq::new(c as nat, |i: int| sts[j - lo]),
            decreases n - c,
        {
            let ghost sb = int_states(slots@);
            slots.push(states[j]);
            assert(sts[j - lo] == int_states(states@)[j as int]);
            assert(int_states(slots@) =~= sb.push(sts[j - lo]));
            assert(int_states(slots@) =~= before_slots + Seq::new((c + 1) as nat, |i: int| sts[j - lo]));
            c += 1;
        }
        proof {
            let m = j - lo;
            assert(s.take(m + 1).drop_last() =~= s.take(m));
            assert(sts.take(m + 1).drop_last() =~= sts.take(m));
            assert(s.take(m + 1).last() == all@[j as int]);
        }
        assert(piece@.take(piece@.len() as int) =~= piece@);
        j += 1;
    }
    assert(s.take(hi - lo) =~= s);
    assert(sts.take(hi - lo) =~= sts);
    MarkupChunk { next_offset: o, phonemes, fed: string_from_chars(fed.as_slice()), slot_states: slots }
}

} // verus!
