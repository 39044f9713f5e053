//! Splitting phoneme strings and token streams into chunks the acoustic model
//! accepts. Lengths count Unicode scalars (`char`s).

use vstd::prelude::*;
use crate::g2p::TokenPhonemes;
use crate::segmenter::nonempty_piece;
use crate::text::{
    chars_of, is_whitespace, string_from_range, trim, trimmed_bounds, trimmed_string, whitespace_char,
};

verus! {

/// Model sequence limit (512) minus the two sentinels reserved by the tokenizer.
pub const DEFAULT_CHUNK_LIMIT: u32 = 510;

/// Chars a phoneme chunk preferably ends on.
pub open spec fn break_char(c: char) -> bool {
    c == ' ' || c == '.' || c == ',' || c == ';' || c == ':' || c == '!' || c == '?' || c == '—'
        || c == '…'
}

/// Where a chunk starting at `start` and capped at `end` is cut: just after the last
/// break char at an index above `floor` (searching down from `cursor`), else at `end`.
pub open spec fn split_point(cs: Seq<char>, cursor: int, floor: int, end: int) -> int
    decreases cursor - floor,
{
    if cursor > floor {
        if break_char(cs[cursor]) {
            cursor + 1
        } else {
            split_point(cs, cursor - 1, floor, end)
        }
    } else {
        end
    }
}

/// First index at or after `k` that is not whitespace.
pub open spec fn skip_spaces(cs: Seq<char>, k: int) -> int
    decreases cs.len() - k,
{
    if 0 <= k < cs.len() && whitespace_char(cs[k]) {
        skip_spaces(cs, k + 1)
    } else {
        k
    }
}

/// The trimmed, non-empty chunks of `cs` from `start` on, each at most `limit` chars.
pub open spec fn chunks_from(cs: Seq<char>, limit: int, start: int) -> Seq<Seq<char>>
    decreases cs.len() - start,
{
    if start < 0 || start >= cs.len() || limit <= 0 {
        Seq::empty()
    } else if start + limit >= cs.len() {
        nonempty_piece(trim(cs.subrange(start, cs.len() as int)))
    } else {
        let end = start + limit;
        let split = split_point(cs, end - 1, start + limit / 2, end);
        if start < split <= end {
            proof {
                lemma_skip_spaces_ge(cs, split);
            }
            nonempty_piece(trim(cs.subrange(start, split))) + chunks_from(
                cs,
                limit,
                skip_spaces(cs, split),
            )
        } else {
            Seq::empty()
        }
    }
}

/// The chunks `chunk_phonemes` makes of `phonemes`.
pub open spec fn phoneme_chunks(phonemes: Seq<char>, limit: int) -> Seq<Seq<char>> {
    let cs = trim(phonemes);
    if cs.len() <= limit {
        nonempty_piece(cs)
    } else {
        chunks_from(cs, limit, 0)
    }
}

proof fn lemma_split_point_bounds(cs: Seq<char>, cursor: int, floor: int, end: int)
    requires
        cursor < end,
        floor < end,
        cursor < cs.len(),
    ensures
        split_point(cs, cursor, floor, end) > floor,
        split_point(cs, cursor, floor, end) <= end,
    decreases cursor - floor,
{
    if cursor > floor && !break_char(cs[cursor]) {
        lemma_split_point_bounds(cs, cursor - 1, floor, end);
    }
}

proof fn lemma_trim_len(s: Seq<char>)
    ensures
        trim(s).len() <= s.len(),
{
    lemma_trim_start_len(s);
    lemma_trim_end_len(crate::text::trim_start(s));
}

proof fn lemma_trim_start_len(s: Seq<char>)
    ensures
        crate::text::trim_start(s).len() <= s.len(),
    decreases s.len(),
{
    if s.len() > 0 && whitespace_char(s[0]) {
        lemma_trim_start_len(s.drop_first());
    }
}

proof fn lemma_trim_end_len(s: Seq<char>)
    ensures
        crate::text::trim_end(s).len() <= s.len(),
    decreases s.len(),
{
    if s.len() > 0 && whitespace_char(s.last()) {
        lemma_trim_end_len(s.drop_last());
    }
}

/// Every chunk is non-empty and at most `limit` chars long.
proof fn lemma_chunks_bounded(cs: Seq<char>, limit: int, start: int)
    ensures
        forall|k: int|
            0 <= k < chunks_from(cs, limit, start).len() ==> 0 < #[trigger] chunks_from(cs, limit, start)[k].len()
                <= limit,
    decreases cs.len() - start,
{
    if start < 0 || start >= cs.len() || limit <= 0 {
    } else if start + limit >= cs.len() {
        lemma_trim_len(cs.subrange(start, cs.len() as int));
    } else {
        let end = start + limit;
        let split = split_point(cs, end - 1, start + limit / 2, end);
        if start < split <= end {
            lemma_trim_len(cs.subrange(start, split));
            lemma_skip_spaces_ge(cs, split);
            assert(skip_spaces(cs, split) > start);
            lemma_chunks_bounded(cs, limit, skip_spaces(cs, split));
            let head = nonempty_piece(trim(cs.subrange(start, split)));
            let tail = chunks_from(cs, limit, skip_spaces(cs, split));
            assert forall|k: int| 0 <= k < (head + tail).len() implies 0 < #[trigger] (head + tail)[k].len()
                <= limit by {
                if k >= head.len() {
                    assert((head + tail)[k] == tail[k - head.len()]);
                }
            }
        }
    }
}

/// `skip_spaces` never moves backward.
pub proof fn lemma_skip_spaces_ge(cs: Seq<char>, k: int)
    ensures
        skip_spaces(cs, k) >= k,
        0 <= k <= cs.len() ==> skip_spaces(cs, k) <= cs.len(),
    decreases cs.len() - k,
{
    if 0 <= k < cs.len() && whitespace_char(cs[k]) {
        lemma_skip_spaces_ge(cs, k + 1);
    }
}

fn is_break_char(c: char) -> (b: bool)
    ensures
        b == break_char(c),
{
    c == ' ' || c == '.' || c == ',' || c == ';' || c == ':' || c == '!' || c == '?' || c == '—'
        || c == '…'
}

/// The string spelled by `chars`, with surrounding whitespace trimmed.
pub fn collect_trimmed(chars: &[char]) -> (s: String)
    ensures
        s@ == trim(chars@),
{
    let s = trimmed_string(chars, 0, chars.len());
    assert(chars@.subrange(0, chars@.len() as int) =~= chars@);
    s
}

/// Split a phoneme string into chunks of at most `limit` chars each.
///
/// The input is trimmed first. When a cut at `limit` would fall mid-word, the cut is
/// pulled back to just after the last break character past the halfway point of the
/// chunk; without one, the chunk is cut at `limit`. Chunks are trimmed and empty ones
/// dropped.
pub fn chunk_phonemes(phonemes: String, limit: u32) -> (res: Vec<String>)
    requires
        limit > 0 || trim(phonemes@).len() == 0,
    ensures
        res.deep_view() == phoneme_chunks(phonemes@, limit as int),
        forall|k: int| 0 <= k < res@.len() ==> 0 < #[trigger] res@[k]@.len() <= limit,
{
    let limit = limit as usize;
    let all = chars_of(phonemes.as_str());
    let (a, b) = trimmed_bounds(all.as_slice(), 0, all.len());
    assert(all@.subrange(0, all@.len() as int) =~= all@);
    let cs = vstd::slice::slice_to_vec(vstd::slice::slice_subrange(all.as_slice(), a, b));
    let n = cs.len();
    if n <= limit {
        if n == 0 {
            assert(phoneme_chunks(phonemes@, limit as int) =~= Seq::<Seq<char>>::empty());
            return Vec::new();
        }
        let mut one: Vec<String> = Vec::new();
        one.push(string_from_range(cs.as_slice(), 0, n));
        assert(cs@.subrange(0, n as int) =~= cs@);
        assert(one.deep_view() =~= seq![cs@]);
        assert(one@[0]@ == cs@);
        return one;
    }
    let ghost full = chunks_from(cs@, limit as int, 0);
    proof {
        lemma_chunks_bounded(cs@, limit as int, 0);
    }
    let mut out: Vec<String> = Vec::new();
    let mut start: usize = 0;
    while start < n
        invariant
            n == cs@.len(),
            limit > 0,
            n > limit,
            start <= n,
            full == chunks_from(cs@, limit as int, 0),
            out.deep_view() + chunks_from(cs@, limit as int, start as int) == full,
        decreases n - start,
    {
        let ghost before = out.deep_view();
        if n - start <= limit {
            let piece = collect_trimmed(vstd::slice::slice_subrange(cs.as_slice(), start, n));
            if !piece.as_str().is_empty() {
                let ghost pv = piece@;
                out.push(piece);
                assert(out.deep_view() =~= before + seq![pv]);
            } else {
                assert(out.deep_view() =~= before + Seq::<Seq<char>>::empty());
            }
            assert(chunks_from(cs@, limit as int, n as int) =~= Seq::<Seq<char>>::empty());
            start = n;
            assert(out.deep_view() + chunks_from(cs@, limit as int, start as int) =~= full);
        } else {
            let end = start + limit;
            let floor = start + limit / 2;
            let mut split = end;
            let mut cursor = end - 1;
            while cursor > floor
                invariant_except_break
                    split == end,
                    split_point(cs@, cursor as int, floor as int, end as int) == split_point(
                        cs@,
                        end - 1,
                        floor as int,
                        end as int,
                    ),
                invariant
                    floor < end <= n == cs@.len(),
                    cursor < end,
                ensures
                    split == split_point(cs@, end - 1, floor as int, end as int),
                decreases cursor,
            {
                if is_break_char(cs[cursor]) {
                    split = cursor + 1;
                    break;
                }
                cursor -= 1;
            }
            proof {
                lemma_split_point_bounds(cs@, end - 1, floor as int, end as int);
            }
            let piece = collect_trimmed(vstd::slice::slice_subrange(cs.as_slice(), start, split));
            if !piece.as_str().is_empty() {
                let ghost pv = piece@;
                out.push(piece);
                assert(out.deep_view() =~= before + seq![pv]);
            } else {
                assert(out.deep_view() =~= before + Seq::<Seq<char>>::empty());
            }
            let mut next = split;
            while next < n && is_whitespace(cs[next])
                invariant
                    split <= next <= n == cs@.len(),
                    skip_spaces(cs@, next as int) == skip_spaces(cs@, split as int),
                decreases n - next,
            {
                next += 1;
            }
            assert(chunks_from(cs@, limit as int, start as int) == nonempty_piece(
                trim(cs@.subrange(start as int, split as int)),
            ) + chunks_from(cs@, limit as int, next as int));
            assert(out.deep_view() + chunks_from(cs@, limit as int, next as int) =~= before
                + chunks_from(cs@, limit as int, start as int));
            start = next;
        }
    }
    assert(chunks_from(cs@, limit as int, start as int) =~= Seq::<Seq<char>>::empty());
    assert(out.deep_view() =~= full);
    assert forall|k: int| 0 <= k < out@.len() implies 0 < #[trigger] out@[k]@.len() <= limit by {
        assert(out@[k]@ == out.deep_view()[k]);
    }
    out
}

/// One group of tokens whose combined phoneme and whitespace length fits the limit.
#[derive(Clone, Debug, PartialEq)]
pub struct TokenChunk {
    pub tokens: Vec<TokenPhonemes>,
}

/// Chars a token contributes to a chunk: its phonemes and its whitespace.
pub open spec fn token_len(t: TokenPhonemes) -> int {
    (t.phonemes@.len() + t.whitespace@.len()) as int
}

/// Chars of all tokens.
pub open spec fn total_len(ts: Seq<TokenPhonemes>) -> int
    decreases ts.len(),
{
    if ts.len() == 0 {
        0
    } else {
        total_len(ts.drop_last()) + token_len(ts.last())
    }
}

/// Groups made from `ts`, given the group `cur` (of `cur_len` chars) under way: a token
/// that would push a non-empty group past `limit` starts the next group.
pub open spec fn token_groups(ts: Seq<TokenPhonemes>, limit: int, cur: Seq<TokenPhonemes>, cur_len: int) -> Seq<
    Seq<TokenPhonemes>,
>
    decreases ts.len(),
{
    if ts.len() == 0 {
        if cur.len() > 0 {
            seq![cur]
        } else {
            Seq::empty()
        }
    } else {
        let t = ts[0];
        if cur_len + token_len(t) > limit && cur.len() > 0 {
            seq![cur] + token_groups(ts.drop_first(), limit, seq![t], token_len(t))
        } else {
            token_groups(ts.drop_first(), limit, cur.push(t), cur_len + token_len(t))
        }
    }
}

proof fn lemma_total_len_prefix(ts: Seq<TokenPhonemes>, k: int)
    requires
        0 <= k <= ts.len(),
    ensures
        0 <= total_len(ts.take(k)) <= total_len(ts),
    decreases ts.len(),
{
    if k < ts.len() {
        assert(ts.drop_last().take(k) =~= ts.take(k));
        lemma_total_len_prefix(ts.drop_last(), k);
    } else {
        assert(ts.take(k) =~= ts);
        lemma_total_len_nonneg(ts);
    }
}

proof fn lemma_total_len_nonneg(ts: Seq<TokenPhonemes>)
    ensures
        total_len(ts) >= 0,
    decreases ts.len(),
{
    if ts.len() > 0 {
        lemma_total_len_nonneg(ts.drop_last());
    }
}

/// Group a token stream into chunks whose combined phoneme and whitespace length stays
/// within `limit`; a single token longer than `limit` becomes a chunk of its own.
pub fn chunk_tokens(tokens: Vec<TokenPhonemes>, limit: u32) -> (res: Vec<TokenChunk>)
    requires
        total_len(tokens@) <= usize::MAX,
    ensures
        res@.map_values(|c: TokenChunk| c.tokens@) == token_groups(tokens@, limit as int, Seq::empty(), 0),
{
    let limit = limit as usize;
    let ghost ts = tokens@;
    let ghost target = token_groups(ts, limit as int, Seq::empty(), 0);
    let mut chunks: Vec<TokenChunk> = Vec::new();
    let mut current: Vec<TokenPhonemes> = Vec::new();
    let mut current_len: usize = 0;
    let ghost mut k: int = 0;
    assert(ts.skip(0) =~= ts);
    assert(ts.take(0) =~= Seq::<TokenPhonemes>::empty());
    for token in it: tokens
        invariant
            it.seq() == ts,
            k == it.index(),
            k <= ts.len(),
            total_len(ts) <= usize::MAX,
            current_len as int <= total_len(ts.take(k)),
            current_len as int == total_len(current@),
            chunks@.map_values(|c: TokenChunk| c.tokens@) + token_groups(
                ts.skip(k),
                limit as int,
                current@,
                current_len as int,
            ) == target,
    {
        let ghost before = chunks@.map_values(|c: TokenChunk| c.tokens@);
        let ghost cur0 = current@;
        assert(ts.skip(k)[0] == token);
        assert(ts.skip(k).drop_first() =~= ts.skip(k + 1));
        proof {
            lemma_total_len_prefix(ts, k + 1);
            assert(ts.take(k + 1).drop_last() =~= ts.take(k));
            assert(ts.take(k + 1).last() == token);
        }
        let tlen = token.phonemes.as_str().unicode_len() + token.whitespace.as_str().unicode_len();
        assert(tlen == token_len(token));
        if current_len + tlen > limit && current.len() > 0 {
            let mut group: Vec<TokenPhonemes> = Vec::new();
            std::mem::swap(&mut group, &mut current);
            chunks.push(TokenChunk { tokens: group });
            assert(chunks@.map_values(|c: TokenChunk| c.tokens@) =~= before + seq![cur0]);
            current_len = tlen;
            current.push(token);
            assert(current@ =~= seq![token]);
            assert(current@.drop_last() =~= Seq::<TokenPhonemes>::empty());
            assert(total_len(Seq::<TokenPhonemes>::empty()) == 0);
        } else {
            current_len += tlen;
            current.push(token);
            assert(current@.drop_last() =~= cur0);
            assert(current@.last() == token);
        }
        proof {
            k = k + 1;
        }
    }
    let ghost before = chunks@.map_values(|c: TokenChunk| c.tokens@);
    assert(ts.skip(k) =~= Seq::<TokenPhonemes>::empty());
    if current.len() > 0 {
        let ghost cur = current@;
        chunks.push(TokenChunk { tokens: current });
        assert(chunks@.map_values(|c: TokenChunk| c.tokens@) =~= before + seq![cur]);
    } else {
        assert(before + Seq::<Seq<TokenPhonemes>>::empty() =~= before);
    }
    chunks
}

} // verus!
